use cypheria::bytes::{append_bytes, bytes_eq, copy_range, read_le_u16, read_le_u32, starts_with, u16_to_le, u32_to_le};
use cypheria::crypto::keys::{ActiveKeyStore, EntryKey, MasterKey, VaultKey};
use cypheria::error::{after_persist, invalid_input, persist_failed, CypheriaError};
use cypheria::models::settings::Settings;
use cypheria::text::{find_char, hex_encode, is_empty_text, parse_decimal, str_eq, u64_to_decimal};
use cypheria::commands::vault_mgmt::vault_meta;
use cypheria::time::{days_since, system_unix_secs, Timestamp};
use cypheria::vault::format::{EncryptedSettings, VaultData, VaultHeader, MAGIC};

#[test]
fn little_endian_round_trips() {
    assert_eq!(u16_to_le(0x0201), [1, 2]);
    assert_eq!(u32_to_le(0x0403_0201), [1, 2, 3, 4]);
    assert_eq!(read_le_u16(&[9, 1, 2], 1), 0x0201);
    assert_eq!(read_le_u32(&[0, 1, 2, 3, 4], 1), 0x0403_0201);
}

#[test]
fn byte_helpers() {
    let mut v = vec![1u8];
    append_bytes(&mut v, &[2, 3]);
    assert_eq!(v, vec![1, 2, 3]);
    assert_eq!(copy_range(&v, 1, 3), vec![2, 3]);
    assert!(starts_with(&v, &[1, 2]));
    assert!(!starts_with(&v, &[2]));
    assert!(!starts_with(&[1], &[1, 2]));
    assert!(bytes_eq(&[1, 2], &[1, 2]));
    assert!(!bytes_eq(&[1, 2], &[1]));
    assert_eq!(&MAGIC, b"CYPHERIA\x01");
}

#[test]
fn text_helpers() {
    assert_eq!(hex_encode(&[0x00, 0xab, 0x7f]), "00ab7f");
    assert_eq!(u64_to_decimal(0), "0");
    assert_eq!(u64_to_decimal(18_446_744_073_709_551_615), "18446744073709551615");
    assert!(is_empty_text(""));
    assert!(!is_empty_text(" "));
    assert!(str_eq("abc", "abc"));
    assert!(!str_eq("abc", "abd"));
    assert_eq!(find_char(&['a', '|', 'b', '|'], '|'), Some(1));
    assert_eq!(find_char(&['a'], '|'), None);
}

#[test]
fn decimal_parsing_follows_from_str() {
    let chars = |s: &str| s.chars().collect::<Vec<char>>();
    assert_eq!(parse_decimal(&chars("42"), u64::MAX), Some(42));
    assert_eq!(parse_decimal(&chars("+7"), u64::MAX), Some(7));
    assert_eq!(parse_decimal(&chars("007"), u64::MAX), Some(7));
    assert_eq!(parse_decimal(&chars(""), u64::MAX), None);
    assert_eq!(parse_decimal(&chars("+"), u64::MAX), None);
    assert_eq!(parse_decimal(&chars("-1"), u64::MAX), None);
    assert_eq!(parse_decimal(&chars("1 "), u64::MAX), None);
    assert_eq!(parse_decimal(&chars("4294967295"), 4_294_967_295), Some(4_294_967_295));
    assert_eq!(parse_decimal(&chars("4294967296"), 4_294_967_295), None);
    assert_eq!(parse_decimal(&chars("18446744073709551616"), u64::MAX), None);
    for s in ["0", "9", "123", "+5", "x", "", "99999999999999999999"] {
        assert_eq!(parse_decimal(&chars(s), u64::MAX), s.parse::<u64>().ok());
    }
}

fn header_created_at(created_at: Timestamp) -> VaultHeader {
    VaultHeader {
        argon2_salt: [0u8; 32],
        kdf_memory_kb: 65536,
        kdf_iterations: 3,
        kdf_parallelism: 4,
        vk_wrapped_classical: vec![],
        kyber_public_key: vec![],
        kyber_sk_encrypted: vec![],
        kyber_ciphertext: vec![],
        vk_wrapped_pq: vec![],
        created_at,
        vault_name: "V".to_string(),
        format_version: 1,
    }
}

#[test]
fn time_helpers() {
    let t0 = Timestamp { secs: 0, nanos: 0 };
    let t1 = Timestamp { secs: 3 * 86_400 - 1, nanos: 999_999_999 };
    assert_eq!(days_since(t1, t0), 2);
    assert_eq!(days_since(t0, t1), 0);
    assert_eq!(vault_meta(&header_created_at(t0)).created_at, "1970-01-01T00:00:00+00:00");
    assert_eq!(vault_meta(&header_created_at(Timestamp { secs: 1, nanos: 500_000_000 })).created_at, "1970-01-01T00:00:01.500+00:00");
    assert!(!Timestamp { secs: 0, nanos: 1_000_000_000 }.is_valid());
    assert!(system_unix_secs() > 1_600_000_000);
    let mut data = VaultData { entries: vec![], notes: vec![], settings: EncryptedSettings { payload_encrypted: vec![] }, updated_at: t1 };
    assert!(data.timestamps_valid());
    data.updated_at = Timestamp { secs: i64::MAX, nanos: 0 };
    assert!(!data.timestamps_valid());
}

#[test]
fn error_messages() {
    assert_eq!(CypheriaError::AuthFailed.message(), "Authentication failed");
    assert_eq!(CypheriaError::VaultLocked.message(), "Vault is locked");
    assert_eq!(CypheriaError::VaultCorrupted.message(), "Vault file is corrupted or tampered");
    assert_eq!(CypheriaError::RateLimited(30).message(), "Maximum unlock attempts exceeded. Try again in 30 seconds");
    assert_eq!(CypheriaError::EntryNotFound("x".into()).message(), "Entry not found: x");
    assert_eq!(invalid_input("bad").message(), "Invalid input: bad");
    let e = persist_failed(&CypheriaError::IoError("disk full".into()));
    assert_eq!(
        e.message(),
        "Changes were applied in memory but could not be saved to disk. WARNING: locking the vault will discard these in-memory changes. Error: IO error: disk full"
    );
}

#[test]
fn default_settings() {
    let s = Settings::default();
    assert_eq!(s.theme, "dark");
    assert!(s.launch_at_startup && s.minimize_to_tray && s.screenshot_protection);
    assert_eq!(s.auto_lock_secs, 300);
    assert_eq!(s.clear_clipboard_secs, 30);
    assert_eq!(s.expiry_days, 90);
    assert!(!s.show_password_default && !s.lock_on_blur);
    assert!(Settings::default_screenshot_protection());
}

#[test]
fn keys_hold_their_bytes() {
    let ks = ActiveKeyStore::new([1u8; 32], [2u8; 32]);
    assert_eq!(*ks.master_key_bytes(), [1u8; 32]);
    assert_eq!(*ks.vault_key_bytes(), [2u8; 32]);
    assert_eq!(*MasterKey::new([5u8; 32]).expose(), [5u8; 32]);
    let _ = VaultKey::new([6u8; 32]);
    let _ = EntryKey::new([7u8; 32]);
}

#[test]
fn a_failed_write_after_a_change_is_reported() {
    assert_eq!(after_persist(7u32, Ok(())).unwrap(), 7);
    match after_persist(7u32, Err(CypheriaError::IoError("disk full".to_string()))) {
        Err(CypheriaError::PersistFailed(m)) => {
            assert!(m.starts_with("Changes were applied in memory but could not be saved to disk."));
            assert!(m.ends_with("Error: IO error: disk full"));
        },
        _ => panic!("expected PersistFailed"),
    }
}
