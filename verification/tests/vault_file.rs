use cypheria::commands::auth::{build_vault, change_master_password, validate_new_vault};
use cypheria::commands::entries;
use cypheria::models::entry::EntryInput;
use cypheria::crypto::aes::{decrypt, unwrap_key, wrap_key};
use cypheria::crypto::kdf::derive_master_key_with_params;
use cypheria::crypto::keys::ActiveKeyStore;
use cypheria::time::Timestamp;
use cypheria::vault::format::{EncryptedSettings, VaultData, VaultHeader};
use cypheria::error::CypheriaError;
use cypheria::session::manager::{SessionManager, SessionState};
use cypheria::vault::store::{decrypt_settings, encode_vault_file, open_vault_file, read_vault_layout, VaultStore};

#[test]
fn new_vault_is_written_and_opens_with_its_password() {
    let v = build_vault(b"correct horse", "Home".to_string(), b"{}").unwrap();
    assert_eq!(v.header.vault_name, "Home");
    assert_eq!(v.header.kdf_memory_kb, 65536);
    assert_eq!(v.header.kdf_iterations, 3);
    assert_eq!(v.header.kdf_parallelism, 4);
    assert_eq!(v.header.kyber_public_key.len(), 1568);
    assert_eq!(v.header.kyber_ciphertext.len(), 1568);
    assert!(v.data.entries.is_empty() && v.data.notes.is_empty());
    assert_eq!(decrypt_settings(v.key_store.vault_key_bytes(), &v.data).unwrap(), b"{}".to_vec());

    let header_bytes = b"serialized header".to_vec();
    let data_plaintext = b"serialized data".to_vec();
    let file = encode_vault_file(&v.key_store, &data_plaintext, &header_bytes).unwrap();
    let layout = read_vault_layout(&file).unwrap();
    assert_eq!(layout.version, 2);
    assert_eq!(layout.header_start, 15);
    assert_eq!(&file[layout.header_start..layout.header_end], &header_bytes[..]);
    let opened = open_vault_file(b"correct horse", &file, &layout, &v.header).unwrap();
    assert_eq!(opened.data_plaintext, data_plaintext);
    assert!(!opened.needs_rewrite);
    assert_eq!(opened.key_store.vault_key_bytes(), v.key_store.vault_key_bytes());
    assert_eq!(opened.key_store.master_key_bytes(), v.key_store.master_key_bytes());


    assert!(decrypt(v.key_store.master_key_bytes(), &v.header.kyber_sk_encrypted).unwrap().len() == 3168);
}

#[test]
fn layouts_that_do_not_fit_are_corrupted() {
    assert!(matches!(read_vault_layout(b"CYPHERIA"), Err(CypheriaError::VaultCorrupted)));
    let mut f = b"CYPHERIA\x01".to_vec();
    f.extend_from_slice(&[2, 0]);
    assert!(matches!(read_vault_layout(&f), Err(CypheriaError::VaultCorrupted)));
    f.extend_from_slice(&[5, 0, 0, 0]);
    assert!(matches!(read_vault_layout(&f), Err(CypheriaError::VaultCorrupted)));
    f.extend_from_slice(b"abcde");
    let l = read_vault_layout(&f).unwrap();
    assert_eq!((l.version, l.header_start, l.header_end), (2, 15, 20));
}

#[test]
fn new_vault_input_checks() {
    match validate_new_vault("short", "Name") {
        Err(CypheriaError::InvalidInput(m)) => assert_eq!(m, "Password must be at least 8 characters"),
        _ => panic!("expected InvalidInput"),
    }
    match validate_new_vault("long enough", " \t ") {
        Err(CypheriaError::InvalidInput(m)) => assert_eq!(m, "Vault name cannot be empty"),
        _ => panic!("expected InvalidInput"),
    }
    assert!(validate_new_vault("long enough", "Name").is_ok());
    assert!(validate_new_vault("éééé", "Name").is_ok());
}

#[test]
fn a_wrong_password_or_a_changed_byte_is_refused() {
    let (s, _) = cheap_session(b"correct horse");
    let (key_store, store) = match s.state {
        SessionState::Unlocked { key_store, vault_store, .. } => (key_store, vault_store),
        _ => panic!("expected an unlocked session"),
    };
    let file = encode_vault_file(&key_store, b"data", b"hdr").unwrap();
    let layout = read_vault_layout(&file).unwrap();
    assert!(open_vault_file(b"correct horse", &file, &layout, &store.header).is_ok());
    assert!(matches!(open_vault_file(b"wrong horse", &file, &layout, &store.header), Err(CypheriaError::VaultCorrupted)));
    let mut tampered = file.clone();
    let last = tampered.len() - 40;
    tampered[last] ^= 1;
    assert!(matches!(open_vault_file(b"correct horse", &tampered, &layout, &store.header), Err(CypheriaError::VaultCorrupted)));
}

/// An unlocked session over a vault whose header uses a cheap Argon2id
/// setting, so that only the change itself pays for the real one.
fn cheap_session(password: &[u8]) -> (SessionManager, [u8; 32]) {
    let salt = [9u8; 32];
    let mk = derive_master_key_with_params(password, &salt, 64, 1, 1).unwrap();
    let vk = [4u8; 32];
    let header = VaultHeader {
        argon2_salt: salt,
        kdf_memory_kb: 64,
        kdf_iterations: 1,
        kdf_parallelism: 1,
        vk_wrapped_classical: wrap_key(&mk, &vk).unwrap(),
        kyber_public_key: vec![],
        kyber_sk_encrypted: vec![],
        kyber_ciphertext: vec![],
        vk_wrapped_pq: vec![],
        created_at: Timestamp { secs: 1_700_000_000, nanos: 0 },
        vault_name: "Work".to_string(),
        format_version: 1,
    };
    let data = VaultData {
        entries: vec![],
        notes: vec![],
        settings: EncryptedSettings { payload_encrypted: vec![] },
        updated_at: Timestamp { secs: 1_700_000_000, nanos: 0 },
    };
    let mut s = SessionManager::new();
    let (r, _) = s.finish_unlock(Ok((ActiveKeyStore::new(mk, vk), VaultStore { data, header })), "/w".to_string(), 0, 0);
    r.unwrap();
    (s, vk)
}

#[test]
fn master_password_change_needs_the_old_password() {
    let (mut s, _) = cheap_session(b"old password");
    match change_master_password(&mut s, 1, b"old password", b"short") {
        Err(CypheriaError::InvalidInput(m)) => assert_eq!(m, "New password must be at least 8 characters"),
        _ => panic!("expected InvalidInput"),
    }
    assert!(matches!(change_master_password(&mut s, 1, b"not the password", b"new password"), Err(CypheriaError::AuthFailed)));
    match &s.state {
        SessionState::Unlocked { vault_store, .. } => assert_eq!(vault_store.header.kdf_memory_kb, 64),
        _ => panic!("expected an unlocked session"),
    }
    let mut locked = SessionManager::new();
    assert!(matches!(change_master_password(&mut locked, 1, b"old password", b"new password"), Err(CypheriaError::VaultLocked)));
}

#[test]
fn master_password_change_rekeys_the_vault() {
    let (mut s, vk) = cheap_session(b"old password");
    let input = EntryInput {
        name: "Mail".into(),
        username: "me".into(),
        password: "kept across the change".into(),
        website: String::new(),
        notes: String::new(),
        is_favorite: None,
        category: None,
        color: None,
        emoji: None,
    };
    let id = entries::add_entry(&mut s, 1, input).unwrap();
    change_master_password(&mut s, 1, b"old password", b"new password").unwrap();
    assert_eq!(entries::get_entry_password(&mut s, 1, 100, &id).unwrap(), "kept across the change");
    let (key_store, store) = match s.state {
        SessionState::Unlocked { key_store, vault_store, .. } => (key_store, vault_store),
        _ => panic!("expected an unlocked session"),
    };
    assert_eq!(*key_store.vault_key_bytes(), vk);
    assert_eq!(store.header.kdf_memory_kb, 65536);
    assert_eq!(store.header.kdf_iterations, 3);
    assert_eq!(store.header.kdf_parallelism, 4);
    assert_eq!(store.header.vault_name, "Work");
    assert_eq!(unwrap_key(key_store.master_key_bytes(), &store.header.vk_wrapped_classical).unwrap(), vk);
    let file = encode_vault_file(&key_store, b"data", b"hdr").unwrap();
    let layout = read_vault_layout(&file).unwrap();
    let opened = open_vault_file(b"new password", &file, &layout, &store.header).unwrap();
    assert_eq!(*opened.key_store.vault_key_bytes(), vk);
    assert_eq!(opened.data_plaintext, b"data".to_vec());
}
