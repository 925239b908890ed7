use cypheria::commands::clipboard::{check_unlocked, clipboard_clear_delay, clipboard_noise, entry_password_for_clipboard, noise_char};
use cypheria::commands::entries::{self, compute_pwd_score};
use cypheria::commands::ids::validate_uuid;
use cypheria::commands::reveal_tokens::RevealStore;
use cypheria::commands::vault_mgmt::{check_export_destination, check_vault_file, vault_meta};
use cypheria::commands::vault_path::{last_vault_path_record, parse_last_vault_path};
use cypheria::commands::{notes, settings};
use cypheria::crypto::keys::ActiveKeyStore;
use cypheria::error::CypheriaError;
use cypheria::models::entry::EntryInput;
use cypheria::models::note::NoteInput;
use cypheria::session::manager::{SessionManager, SessionState};
use cypheria::time::{system_unix_secs, Timestamp};
use cypheria::vault::format::{EncryptedSettings, VaultData, VaultHeader, MAGIC};
use cypheria::vault::store::{encrypt_settings, VaultStore};

const VK: [u8; 32] = [3u8; 32];
const SOME_ID: &str = "3f2504e0-4f89-41d3-9a0c-0305e82c3301";

fn unlocked_session() -> SessionManager {
    let header = VaultHeader {
        argon2_salt: [1u8; 32],
        kdf_memory_kb: 65536,
        kdf_iterations: 3,
        kdf_parallelism: 4,
        vk_wrapped_classical: vec![],
        kyber_public_key: vec![],
        kyber_sk_encrypted: vec![],
        kyber_ciphertext: vec![],
        vk_wrapped_pq: vec![],
        created_at: Timestamp { secs: 1_700_000_000, nanos: 0 },
        vault_name: "Test".to_string(),
        format_version: 1,
    };
    let settings = encrypt_settings(&VK, br#"{"clear_clipboard_secs":12}"#).unwrap();
    let data = VaultData {
        entries: vec![],
        notes: vec![],
        settings: EncryptedSettings { payload_encrypted: settings },
        updated_at: Timestamp { secs: system_unix_secs() as i64, nanos: 0 },
    };
    let mut s = SessionManager::new();
    let (r, _) = s.finish_unlock(Ok((ActiveKeyStore::new([2u8; 32], VK), VaultStore { data, header })), "/v".to_string(), 0, 0);
    r.unwrap();
    s
}

fn input(name: &str, password: &str) -> EntryInput {
    EntryInput {
        name: name.to_string(),
        username: "u".to_string(),
        password: password.to_string(),
        website: String::new(),
        notes: String::new(),
        is_favorite: None,
        category: None,
        color: None,
        emoji: None,
    }
}

fn entry_count(s: &SessionManager) -> usize {
    match &s.state {
        SessionState::Unlocked { vault_store, .. } => vault_store.data.entries.len(),
        _ => 0,
    }
}

#[test]
fn locked_session_refuses_every_entry_command() {
    let mut s = SessionManager::new();
    let id = SOME_ID.to_string();
    assert!(matches!(entries::get_all_entries(&mut s, 0), Err(CypheriaError::VaultLocked)));
    assert!(matches!(entries::add_entry(&mut s, 0, input("A", "p")), Err(CypheriaError::VaultLocked)));
    assert!(matches!(entries::delete_entry(&mut s, 0, &id), Err(CypheriaError::VaultLocked)));
    assert!(matches!(entries::toggle_favorite(&mut s, 0, &id), Err(CypheriaError::VaultLocked)));
    assert!(matches!(entries::get_entry_password(&mut s, 0, 0, &id), Err(CypheriaError::VaultLocked)));
    assert!(matches!(notes::get_all_notes(&mut s, 0), Err(CypheriaError::VaultLocked)));
    assert!(matches!(settings::get_settings(&mut s, 0), Err(CypheriaError::VaultLocked)));
    assert!(matches!(check_unlocked(&s), Err(CypheriaError::VaultLocked)));
}

#[test]
fn ids_are_checked_before_the_session() {
    let mut s = SessionManager::new();
    match entries::delete_entry(&mut s, 0, "not-a-uuid") {
        Err(CypheriaError::InvalidInput(m)) => assert_eq!(m, "Invalid ID format"),
        _ => panic!("expected InvalidInput"),
    }
    assert!(validate_uuid(SOME_ID).is_ok());
    assert!(validate_uuid("00000000-0000-0000-0000-000000000000").is_ok());
    assert!(validate_uuid("1234").is_err());
}

#[test]
fn add_list_reveal_update_delete() {
    let mut s = unlocked_session();
    let id = entries::add_entry(&mut s, 1, input("Bank", "first-pass")).unwrap();
    let list = entries::get_all_entries(&mut s, 1).unwrap();
    assert_eq!(list.len(), 1);
    assert_eq!(list[0].name, "Bank");
    assert!(list[0].password_masked);
    assert_eq!(entries::get_entry_password(&mut s, 1, 100, &id).unwrap(), "first-pass");
    entries::update_entry(&mut s, 1, &id, input("Bank2", "second-pass")).unwrap();
    assert_eq!(entries::get_entry_password(&mut s, 1, 100, &id).unwrap(), "second-pass");
    assert!(entries::toggle_favorite(&mut s, 1, &id).unwrap());
    assert!(!entries::toggle_favorite(&mut s, 1, &id).unwrap());
    entries::delete_entry(&mut s, 1, &id).unwrap();
    assert_eq!(entry_count(&s), 0);
    match entries::delete_entry(&mut s, 1, &id) {
        Err(CypheriaError::EntryNotFound(x)) => assert_eq!(x, id),
        _ => panic!("expected EntryNotFound"),
    }
}

#[test]
fn update_with_empty_password_is_refused() {
    let mut s = unlocked_session();
    let id = entries::add_entry(&mut s, 1, input("A", "pw")).unwrap();
    match entries::update_entry(&mut s, 1, &id, input("A", "")) {
        Err(CypheriaError::InvalidInput(m)) => assert_eq!(m, "Password cannot be empty. Use update_entry_keep_password to keep the existing password."),
        _ => panic!("expected InvalidInput"),
    }
}

#[test]
fn keep_password_update() {
    let mut s = unlocked_session();
    let id = entries::add_entry(&mut s, 1, input("A", "keep-me")).unwrap();
    entries::update_entry_keep_password(&mut s, 1, &id, "B".into(), "u2".into(), Some(String::new()), "w".into(), "n".into(), Some(true), None, None, None).unwrap();
    assert_eq!(entries::get_entry_password(&mut s, 1, 100, &id).unwrap(), "keep-me");
    entries::update_entry_keep_password(&mut s, 1, &id, "B".into(), "u2".into(), Some("new-one".into()), "w".into(), "n".into(), None, None, None, None).unwrap();
    assert_eq!(entries::get_entry_password(&mut s, 1, 100, &id).unwrap(), "new-one");
    let list = entries::get_all_entries(&mut s, 1).unwrap();
    assert_eq!(list[0].name, "B");
    assert!(list[0].is_favorite);
}

#[test]
fn reveal_tokens_through_the_session() {
    let mut s = unlocked_session();
    let mut store = RevealStore::new();
    let id = entries::add_entry(&mut s, 1, input("A", "tok-pass")).unwrap();
    let token = entries::request_reveal_token(&mut s, &mut store, 1, 100, &id).unwrap();
    assert_eq!(entries::consume_reveal_token(&mut store, &token).unwrap(), "tok-pass");
    match entries::consume_reveal_token(&mut store, &token) {
        Err(CypheriaError::InvalidInput(m)) => assert_eq!(m, "Invalid or expired token"),
        _ => panic!("expected InvalidInput"),
    }
}

#[test]
fn eleventh_reveal_in_a_minute_is_refused() {
    let mut s = unlocked_session();
    let id = entries::add_entry(&mut s, 1, input("A", "pw")).unwrap();
    for _ in 0..10 {
        assert!(entries::get_entry_password(&mut s, 1, 500, &id).is_ok());
    }
    assert!(matches!(entries::get_entry_password(&mut s, 1, 530, &id), Err(CypheriaError::RateLimited(30))));
}

#[test]
fn password_scores() {
    assert_eq!(compute_pwd_score(""), 0);
    assert_eq!(compute_pwd_score("abc"), 15);
    assert_eq!(compute_pwd_score("Abcdefg1"), 60);
    assert_eq!(compute_pwd_score("Abcdefg1!"), 70);
    assert_eq!(compute_pwd_score("Abcdefghijk1!"), 80);
    assert_eq!(compute_pwd_score("Abcdefghijklmno1!"), 90);
    assert_eq!(compute_pwd_score("Abcdefghijklmnopqrstuvw1!"), 100);
    assert_eq!(compute_pwd_score("éééé"), 20);
    assert_eq!(compute_pwd_score("12345678"), 30);
}

#[test]
fn password_score_examples() {
    assert_eq!(compute_pwd_score("password"), 35);
    assert_eq!(compute_pwd_score("Ab1!"), 50);
    assert_eq!(compute_pwd_score("s3cr3t!Password1"), 90);
    assert_eq!(compute_pwd_score("é"), 0);
    assert_eq!(compute_pwd_score("Aa1!Aa1!Aa1!Aa1!Aa1!Aa1!"), 100);
}

#[test]
fn scores_of_the_vault() {
    let mut s = unlocked_session();
    let a = entries::add_entry(&mut s, 1, input("A", "same-pass")).unwrap();
    let b = entries::add_entry(&mut s, 1, input("B", "same-pass")).unwrap();
    let c = entries::add_entry(&mut s, 1, input("C", "other")).unwrap();
    let scores = entries::get_password_scores(&mut s, 1).unwrap();
    assert_eq!(scores.len(), 3);
    assert_eq!(scores[0].id, a);
    assert_eq!(scores[1].id, b);
    assert_eq!(scores[2].id, c);
    assert_eq!(scores[0].dup_tag, scores[1].dup_tag);
    assert_ne!(scores[0].dup_tag, scores[2].dup_tag);
    assert_eq!(scores[0].dup_tag.len(), 8);
    assert!(scores[0].has_password);
    assert_eq!(scores[0].score, compute_pwd_score("same-pass"));
    assert_eq!(scores[0].days_since_update, 0);
}

#[test]
fn notes_through_the_session() {
    let mut s = unlocked_session();
    let id = notes::save_note(&mut s, 1, None, NoteInput { title: "T".into(), content: "C".into() }).unwrap();
    assert_eq!(notes::get_note_content(&mut s, 1, &id).unwrap().content, "C");
    let same = notes::save_note(&mut s, 1, Some(id.clone()), NoteInput { title: "T2".into(), content: "C2".into() }).unwrap();
    assert_eq!(same, id);
    let list = notes::get_all_notes(&mut s, 1).unwrap();
    assert_eq!(list.len(), 1);
    assert_eq!(list[0].title, "T2");
    notes::delete_note(&mut s, 1, &id).unwrap();
    assert!(matches!(notes::get_note_content(&mut s, 1, &id), Err(CypheriaError::NoteNotFound(_))));
    assert!(matches!(notes::delete_note(&mut s, 1, &id), Err(CypheriaError::NoteNotFound(_))));
    assert!(matches!(notes::save_note(&mut s, 1, Some("bad".into()), NoteInput { title: "T".into(), content: "C".into() }), Err(CypheriaError::InvalidInput(_))));
}

#[test]
fn settings_round_trip_through_the_session() {
    let mut s = unlocked_session();
    assert_eq!(settings::get_settings(&mut s, 1).unwrap().unwrap(), br#"{"clear_clipboard_secs":12}"#.to_vec());
    settings::save_settings(&mut s, 1, b"{\"theme\":\"light\"}").unwrap();
    assert_eq!(settings::get_settings(&mut s, 1).unwrap().unwrap(), b"{\"theme\":\"light\"}".to_vec());
}

#[test]
fn clipboard_pieces() {
    assert_eq!(clipboard_clear_delay(0), 30);
    assert_eq!(clipboard_clear_delay(5), 5);
    assert_eq!(noise_char(0), '!');
    assert_eq!(noise_char(93), '~');
    assert_eq!(noise_char(94), '!');
    assert_eq!(noise_char(255), 'd');
    let noise = clipboard_noise().unwrap();
    assert_eq!(noise.chars().count(), 32);
    assert!(noise.chars().all(|c| ('!'..='~').contains(&c)));
    let mut s = unlocked_session();
    let id = entries::add_entry(&mut s, 1, input("A", "clip-pass")).unwrap();
    let (pwd, json) = entry_password_for_clipboard(&mut s, 1, &id).unwrap();
    assert_eq!(pwd, "clip-pass");
    assert_eq!(json.unwrap(), br#"{"clear_clipboard_secs":12}"#.to_vec());
    assert!(check_unlocked(&s).is_ok());
}

#[test]
fn vault_file_checks() {
    let mut head = MAGIC.to_vec();
    assert!(check_vault_file(&head, 200).is_ok());
    assert!(matches!(check_vault_file(&head, 199), Err(CypheriaError::VaultCorrupted)));
    head[8] = 2;
    assert!(matches!(check_vault_file(&head, 500), Err(CypheriaError::VaultCorrupted)));
    assert!(matches!(check_vault_file(&MAGIC[..5], 500), Err(CypheriaError::VaultCorrupted)));
}

#[test]
fn export_destination_checks() {
    let a = Some("/a/v.qvault".to_string());
    let b = Some("/b/v.qvault".to_string());
    assert!(check_export_destination(&a, &b).is_ok());
    assert!(check_export_destination(&None, &b).is_ok());
    match check_export_destination(&a, &a.clone()) {
        Err(CypheriaError::InvalidInput(m)) => assert_eq!(m, "Cannot export vault to its own location. Choose a different path."),
        _ => panic!("expected InvalidInput"),
    }
    assert!(check_export_destination(&None, &None).is_err());
}

#[test]
fn vault_meta_of_a_header() {
    let s = unlocked_session();
    if let SessionState::Unlocked { vault_store, .. } = &s.state {
        let m = vault_meta(&vault_store.header);
        assert_eq!(m.vault_name, "Test");
        assert_eq!(m.created_at, "2023-11-14T22:13:20+00:00");
        assert_eq!(m.format_version, 1);
    } else {
        panic!("expected an unlocked session");
    }
}

#[test]
fn last_vault_path_record_round_trip() {
    let rec = last_vault_path_record("  /home/a/\"my\" vault.qvault \n").unwrap();
    assert_eq!(rec, "\"/home/a/\\\"my\\\" vault.qvault\"");
    assert_eq!(parse_last_vault_path(&rec), Some("/home/a/\"my\" vault.qvault".to_string()));
    assert_eq!(parse_last_vault_path("null"), None);
    assert_eq!(parse_last_vault_path("{"), None);
    match last_vault_path_record("   ") {
        Err(CypheriaError::InvalidInput(m)) => assert_eq!(m, "Vault path cannot be empty"),
        _ => panic!("expected InvalidInput"),
    }
}

#[test]
fn accepted_uuid_forms() {
    assert!(validate_uuid("550e8400e29b41d4a716446655440000").is_ok());
    assert!(validate_uuid("550E8400-E29B-41D4-A716-446655440000").is_ok());
    assert!(validate_uuid("{550e8400-e29b-41d4-a716-446655440000}").is_ok());
    assert!(validate_uuid("URN:uuid:550e8400-e29b-41d4-a716-446655440000").is_ok());
    assert!(validate_uuid("550e8400-e29b-41d4-a716_446655440000").is_err());
    assert!(validate_uuid("550e8400-e29b-41d4-a716-44665544000g").is_err());
    assert!(validate_uuid("(550e8400-e29b-41d4-a716-446655440000)").is_err());
}
