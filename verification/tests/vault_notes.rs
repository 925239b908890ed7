use cypheria::error::CypheriaError;
use cypheria::models::note::NoteInput;
use cypheria::time::{system_unix_secs, Timestamp};
use cypheria::vault::format::{EncryptedSettings, VaultData};
use cypheria::vault::notes::{add_note, decrypt_note, get_note_content, update_note, validate_note_input};

fn now() -> Timestamp {
    Timestamp { secs: system_unix_secs() as i64, nanos: 0 }
}

fn empty_vault_data() -> VaultData {
    VaultData {
        entries: vec![],
        notes: vec![],
        settings: EncryptedSettings { payload_encrypted: vec![] },
        updated_at: now(),
    }
}

fn test_vk() -> [u8; 32] {
    [0xAB_u8; 32]
}

fn sample_note_input(title: &str) -> NoteInput {
    NoteInput { title: title.to_string(), content: "This is the note body.".to_string() }
}

#[test]
fn test_add_and_decrypt_note_roundtrip() {
    let vk = test_vk();
    let mut data = empty_vault_data();
    let id = add_note(&vk, &mut data, sample_note_input("My Secret")).unwrap();
    assert_eq!(data.notes.len(), 1);
    let view = decrypt_note(&vk, &data.notes[0]).unwrap();
    assert_eq!(view.id, id);
    assert_eq!(view.title, "My Secret");
    assert!(view.content_masked, "content must be masked in NoteView");
}

#[test]
fn test_get_note_content_returns_correct_value() {
    let vk = test_vk();
    let mut data = empty_vault_data();
    let id = add_note(&vk, &mut data, sample_note_input("Title")).unwrap();
    let full = get_note_content(&vk, &data, &id).unwrap();
    assert_eq!(full.title, "Title");
    assert_eq!(full.content, "This is the note body.");
}

#[test]
fn test_update_note_rotates_key() {
    let vk = test_vk();
    let mut data = empty_vault_data();
    let id = add_note(&vk, &mut data, sample_note_input("Old Title")).unwrap();
    let old_ek = data.notes[0].ek_wrapped.clone();
    update_note(&vk, &mut data, &id, NoteInput { title: "New Title".to_string(), content: "Updated body.".to_string() }).unwrap();
    assert_ne!(data.notes[0].ek_wrapped, old_ek, "ek_wrapped must differ after update (key rotation)");
    let view = decrypt_note(&vk, &data.notes[0]).unwrap();
    assert_eq!(view.title, "New Title");
}

#[test]
fn test_decrypt_note_wrong_key_fails() {
    let vk = test_vk();
    let wrong_vk = [0x00_u8; 32];
    let mut data = empty_vault_data();
    add_note(&vk, &mut data, sample_note_input("Secret")).unwrap();
    assert!(decrypt_note(&wrong_vk, &data.notes[0]).is_err(), "wrong vault key must not decrypt note");
}

#[test]
fn test_add_note_empty_title_rejected() {
    let mut data = empty_vault_data();
    let bad_input = NoteInput { title: "".to_string(), content: "body".to_string() };
    assert!(add_note(&test_vk(), &mut data, bad_input).is_err());
}

#[test]
fn test_add_note_whitespace_only_title_rejected() {
    let mut data = empty_vault_data();
    let bad_input = NoteInput { title: "   ".to_string(), content: "body".to_string() };
    assert!(add_note(&test_vk(), &mut data, bad_input).is_err());
}

#[test]
fn test_add_note_title_too_long_rejected() {
    let long_title = "a".repeat(257);
    let mut data = empty_vault_data();
    let bad_input = NoteInput { title: long_title, content: "body".to_string() };
    assert!(add_note(&test_vk(), &mut data, bad_input).is_err());
}

#[test]
fn test_get_note_content_nonexistent_id_fails() {
    let vk = test_vk();
    let data = empty_vault_data();
    let result = get_note_content(&vk, &data, "00000000-0000-0000-0000-000000000000");
    assert!(result.is_err());
}

#[test]
fn test_vault_updated_at_stamped_on_add_note() {
    let vk = test_vk();
    let mut data = empty_vault_data();
    let before = data.updated_at;
    add_note(&vk, &mut data, sample_note_input("TS")).unwrap();
    assert!((data.updated_at.secs, data.updated_at.nanos) >= (before.secs, before.nanos));
}

// ── Further cases ───────────────────────────────────────────────────────────

fn message(r: Result<(), CypheriaError>) -> String {
    match r {
        Err(CypheriaError::InvalidInput(m)) => m,
        _ => String::from("no InvalidInput"),
    }
}

#[test]
fn note_validation_messages() {
    assert_eq!(message(validate_note_input(&NoteInput { title: "\t\n".into(), content: String::new() })), "Note title cannot be empty");
    assert_eq!(message(validate_note_input(&NoteInput { title: "t".repeat(257), content: String::new() })), "Note title too long (max 256 chars)");
    assert_eq!(message(validate_note_input(&NoteInput { title: "t".into(), content: "c".repeat(1_048_577) })), "Note content too long (max 1 MB)");
}

#[test]
fn note_title_is_measured_after_trimming() {
    let title = format!("  {}  ", "t".repeat(256));
    assert!(validate_note_input(&NoteInput { title, content: "c".repeat(1_048_576) }).is_ok());
}

#[test]
fn note_update_of_unknown_id_is_not_found() {
    let mut data = empty_vault_data();
    match update_note(&test_vk(), &mut data, "nope", sample_note_input("X")) {
        Err(CypheriaError::NoteNotFound(id)) => assert_eq!(id, "nope"),
        _ => panic!("expected NoteNotFound"),
    }
}

#[test]
fn note_content_survives_update() {
    let vk = test_vk();
    let mut data = empty_vault_data();
    let id = add_note(&vk, &mut data, sample_note_input("A")).unwrap();
    update_note(&vk, &mut data, &id, NoteInput { title: "B".into(), content: "second body".into() }).unwrap();
    let full = get_note_content(&vk, &data, &id).unwrap();
    assert_eq!(full.id, id);
    assert_eq!(full.title, "B");
    assert_eq!(full.content, "second body");
}
