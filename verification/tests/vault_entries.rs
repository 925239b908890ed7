use cypheria::error::CypheriaError;
use cypheria::models::entry::EntryInput;
use cypheria::time::{system_unix_secs, Timestamp};
use cypheria::vault::entry::{add_entry, decrypt_entry, get_entry_password, update_entry, validate_entry_input};
use cypheria::vault::format::{EncryptedSettings, VaultData};

fn now() -> Timestamp {
    Timestamp { secs: system_unix_secs() as i64, nanos: 0 }
}

fn empty_vault_data() -> VaultData {
    VaultData {
        entries: vec![],
        notes: vec![],
        settings: EncryptedSettings { payload_encrypted: vec![] },
        updated_at: now(),
    }
}

fn test_vk() -> [u8; 32] {
    [0xAB_u8; 32]
}

fn sample_input(name: &str) -> EntryInput {
    EntryInput {
        name: name.to_string(),
        username: "user@example.com".to_string(),
        password: "s3cr3t!Password1".to_string(),
        website: "https://example.com".to_string(),
        notes: String::new(),
        is_favorite: Some(false),
        category: Some("general".into()),
        color: Some("#8b5cf6".into()),
        emoji: Some("T".into()),
    }
}

#[test]
fn test_add_and_decrypt_entry_roundtrip() {
    let vk = test_vk();
    let mut data = empty_vault_data();
    let id = add_entry(&vk, &mut data, sample_input("TestSite")).unwrap();
    assert_eq!(data.entries.len(), 1);
    let view = decrypt_entry(&vk, &data.entries[0]).unwrap();
    assert_eq!(view.id, id);
    assert_eq!(view.name, "TestSite");
    assert_eq!(view.username, "user@example.com");
    assert!(view.password_masked, "password must be masked in EntryView");
}

#[test]
fn new_entry_id_is_a_v4_uuid_and_key_is_wrapped() {
    let vk = test_vk();
    let mut data = empty_vault_data();
    let id = add_entry(&vk, &mut data, sample_input("TestSite")).unwrap();
    let cs: Vec<char> = id.chars().collect();
    assert_eq!(cs.len(), 36);
    for (i, c) in cs.iter().enumerate() {
        if i == 8 || i == 13 || i == 18 || i == 23 {
            assert_eq!(*c, '-');
        } else {
            assert!(c.is_ascii_digit() || ('a'..='f').contains(c));
        }
    }
    assert_eq!(cs[14], '4');
    assert!(matches!(cs[19], '8' | '9' | 'a' | 'b'));
    assert_eq!(data.entries[0].ek_wrapped.len(), 60);
}

#[test]
fn test_get_entry_password_returns_correct_value() {
    let vk = test_vk();
    let mut data = empty_vault_data();
    let id = add_entry(&vk, &mut data, sample_input("Login")).unwrap();
    let pwd = get_entry_password(&vk, &data, &id).unwrap();
    assert_eq!(pwd, "s3cr3t!Password1");
}

#[test]
fn test_update_entry_rotates_key() {
    let vk = test_vk();
    let mut data = empty_vault_data();
    let id = add_entry(&vk, &mut data, sample_input("Old")).unwrap();
    let old_ek = data.entries[0].ek_wrapped.clone();
    update_entry(&vk, &mut data, &id, sample_input("New")).unwrap();
    assert_ne!(data.entries[0].ek_wrapped, old_ek, "ek_wrapped must differ after update (key rotation)");
    let view = decrypt_entry(&vk, &data.entries[0]).unwrap();
    assert_eq!(view.name, "New");
}

#[test]
fn test_decrypt_entry_wrong_key_fails() {
    let vk = test_vk();
    let wrong_vk = [0x00_u8; 32];
    let mut data = empty_vault_data();
    add_entry(&vk, &mut data, sample_input("Secret")).unwrap();
    assert!(decrypt_entry(&wrong_vk, &data.entries[0]).is_err(), "wrong vault key must not decrypt entry");
}

#[test]
fn test_add_entry_empty_name_rejected() {
    let mut input = sample_input("placeholder");
    input.name = String::new();
    let mut data = empty_vault_data();
    assert!(add_entry(&test_vk(), &mut data, input).is_err());
}

#[test]
fn test_add_entry_name_too_long_rejected() {
    let long_name = "a".repeat(257);
    let input = sample_input(&long_name);
    let mut data = empty_vault_data();
    assert!(add_entry(&test_vk(), &mut data, input).is_err());
}

#[test]
fn test_get_entry_password_nonexistent_id_fails() {
    let vk = test_vk();
    let data = empty_vault_data();
    let result = get_entry_password(&vk, &data, "00000000-0000-0000-0000-000000000000");
    assert!(result.is_err());
}

#[test]
fn test_vault_updated_at_stamped_on_add() {
    let vk = test_vk();
    let mut data = empty_vault_data();
    let before = data.updated_at;
    add_entry(&vk, &mut data, sample_input("TS")).unwrap();
    assert!((data.updated_at.secs, data.updated_at.nanos) >= (before.secs, before.nanos));
}

// ── Further cases ───────────────────────────────────────────────────────────

fn message(r: Result<(), CypheriaError>) -> String {
    match r {
        Err(CypheriaError::InvalidInput(m)) => m,
        _ => String::from("no InvalidInput"),
    }
}

#[test]
fn validation_messages_in_rule_order() {
    let mut i = sample_input("   ");
    assert_eq!(message(validate_entry_input(&i)), "Entry name cannot be empty");
    i = sample_input(&"é".repeat(129));
    assert_eq!(message(validate_entry_input(&i)), "Entry name too long (max 256 chars)");
    i = sample_input("ok");
    i.username = "u".repeat(513);
    assert_eq!(message(validate_entry_input(&i)), "Username too long (max 512 chars)");
    i = sample_input("ok");
    i.password = "p".repeat(4097);
    assert_eq!(message(validate_entry_input(&i)), "Password too long (max 4096 chars)");
    i = sample_input("ok");
    i.website = "w".repeat(2049);
    assert_eq!(message(validate_entry_input(&i)), "Website URL too long (max 2048 chars)");
    i = sample_input("ok");
    i.notes = "n".repeat(65537);
    assert_eq!(message(validate_entry_input(&i)), "Notes too long (max 64 KB)");
    i = sample_input("ok");
    i.color = Some("#12345g".into());
    assert_eq!(message(validate_entry_input(&i)), "Color must be a valid hex color (e.g. #8b5cf6)");
}

#[test]
fn accepted_inputs_at_the_limits() {
    let mut i = sample_input(&"a".repeat(256));
    i.username = "u".repeat(512);
    i.password = "p".repeat(4096);
    i.color = Some(String::new());
    assert!(validate_entry_input(&i).is_ok());
    i.color = Some("#ABCdef".into());
    assert!(validate_entry_input(&i).is_ok());
    i.color = None;
    assert!(validate_entry_input(&i).is_ok());
}

#[test]
fn rejected_input_leaves_the_vault_unchanged() {
    let vk = test_vk();
    let mut data = empty_vault_data();
    add_entry(&vk, &mut data, sample_input("Kept")).unwrap();
    let before = data.entries[0].ek_wrapped.clone();
    assert!(add_entry(&vk, &mut data, sample_input("")).is_err());
    assert_eq!(data.entries.len(), 1);
    assert_eq!(data.entries[0].ek_wrapped, before);
}

#[test]
fn update_of_unknown_entry_is_not_found() {
    let vk = test_vk();
    let mut data = empty_vault_data();
    match update_entry(&vk, &mut data, "abc", sample_input("X")) {
        Err(CypheriaError::EntryNotFound(id)) => assert_eq!(id, "abc"),
        _ => panic!("expected EntryNotFound"),
    }
}

#[test]
fn update_keeps_options_that_are_not_given() {
    let vk = test_vk();
    let mut data = empty_vault_data();
    let mut first = sample_input("A");
    first.is_favorite = Some(true);
    let id = add_entry(&vk, &mut data, first).unwrap();
    let mut second = sample_input("B");
    second.is_favorite = None;
    second.category = None;
    second.color = Some("#000000".into());
    update_entry(&vk, &mut data, &id, second).unwrap();
    let e = &data.entries[0];
    assert!(e.is_favorite);
    assert_eq!(e.category, "general");
    assert_eq!(e.color, "#000000");
    assert_eq!(e.id, id);
}

#[test]
fn new_entry_defaults() {
    let vk = test_vk();
    let mut data = empty_vault_data();
    let mut i = sample_input("D");
    i.is_favorite = None;
    i.category = None;
    i.color = None;
    i.emoji = None;
    add_entry(&vk, &mut data, i).unwrap();
    let e = &data.entries[0];
    assert!(!e.is_favorite);
    assert_eq!(e.category, "");
    assert_eq!(e.color, "");
    assert_eq!(e.emoji, "");
    assert_eq!(e.created_at, e.updated_at);
}
