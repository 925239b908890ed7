use cypheria::commands::reveal_tokens::RevealStore;
use cypheria::crypto::keys::ActiveKeyStore;
use cypheria::error::CypheriaError;
use cypheria::session::attempts::{attempts_hmac_key, format_attempts_record, read_attempts_record, sign_attempts, verify_attempts};
use cypheria::session::autolock::{AutoLockStep, AutoLockTimer};
use cypheria::session::manager::{AttemptsRecord, SessionManager, SessionState};
use cypheria::time::Timestamp;
use cypheria::vault::format::{EncryptedSettings, VaultData, VaultHeader};
use cypheria::vault::store::VaultStore;

const SEC: u64 = 1_000_000_000;

fn dummy_store() -> (ActiveKeyStore, VaultStore) {
    let header = VaultHeader {
        argon2_salt: [1u8; 32],
        kdf_memory_kb: 65536,
        kdf_iterations: 3,
        kdf_parallelism: 4,
        vk_wrapped_classical: vec![],
        kyber_public_key: vec![],
        kyber_sk_encrypted: vec![],
        kyber_ciphertext: vec![],
        vk_wrapped_pq: vec![],
        created_at: Timestamp { secs: 1_700_000_000, nanos: 0 },
        vault_name: "Test".to_string(),
        format_version: 1,
    };
    let data = VaultData {
        entries: vec![],
        notes: vec![],
        settings: EncryptedSettings { payload_encrypted: vec![] },
        updated_at: Timestamp { secs: 1_700_000_000, nanos: 0 },
    };
    (ActiveKeyStore::new([2u8; 32], [3u8; 32]), VaultStore { data, header })
}

#[test]
fn new_session_is_locked_and_refuses_access() {
    let mut s = SessionManager::new();
    assert!(!s.is_unlocked());
    assert!(matches!(s.access(0), Err(CypheriaError::VaultLocked)));
    assert!(matches!(s.state, SessionState::Locked));
    assert!(s.vault_path().is_none());
}

#[test]
fn successful_unlock_clears_attempts() {
    let mut s = SessionManager::new();
    s.attempts = 3;
    let (r, rec) = s.finish_unlock(Ok(dummy_store()), "/tmp/v.qvault".to_string(), 5, 100);
    assert!(r.is_ok());
    assert_eq!(rec, AttemptsRecord::Clear);
    assert_eq!(s.attempts, 0);
    assert!(s.is_unlocked());
    assert_eq!(s.vault_path(), Some("/tmp/v.qvault".to_string()));
    assert!(s.access(6).is_ok());
}

#[test]
fn fifth_failure_starts_a_lockout() {
    let mut s = SessionManager::new();
    for n in 1..5u32 {
        let (r, rec) = s.finish_unlock(Err(CypheriaError::AuthFailed), String::new(), 0, 1000);
        assert!(matches!(r, Err(CypheriaError::AuthFailed)));
        assert_eq!(rec, AttemptsRecord::Write { count: n, lockout_until: 0 });
        assert_eq!(s.attempts, n);
    }
    let (r, rec) = s.finish_unlock(Err(CypheriaError::AuthFailed), String::new(), 7 * SEC, 1000);
    assert!(matches!(r, Err(CypheriaError::RateLimited(30))));
    assert_eq!(rec, AttemptsRecord::Write { count: 0, lockout_until: 1030 });
    assert_eq!(s.attempts, 0);
    match s.state {
        SessionState::RateLimited { locked_until, attempts } => {
            assert_eq!(locked_until, 37 * SEC as u128);
            assert_eq!(attempts, 5);
        },
        _ => panic!("expected a lockout"),
    }
}

#[test]
fn lockout_refuses_until_it_ends() {
    let mut s = SessionManager::new();
    s.state = SessionState::RateLimited { locked_until: 30 * SEC as u128, attempts: 5 };
    assert!(matches!(s.unlock_precheck(10 * SEC, 0, 0, 0), Err(CypheriaError::RateLimited(20))));
    assert!(matches!(s.access(10 * SEC + 1), Err(CypheriaError::RateLimited(19))));
    assert!(matches!(s.access(30 * SEC), Err(CypheriaError::VaultLocked)));
    assert!(matches!(s.state, SessionState::Locked));
}

#[test]
fn lockout_recorded_on_disk_is_applied() {
    let mut s = SessionManager::new();
    assert!(matches!(s.unlock_precheck(2 * SEC, 0, 1020, 1000), Err(CypheriaError::RateLimited(20))));
    match s.state {
        SessionState::RateLimited { locked_until, attempts } => {
            assert_eq!(locked_until, 22 * SEC as u128);
            assert_eq!(attempts, 5);
        },
        _ => panic!("expected a lockout"),
    }
    let mut t = SessionManager::new();
    assert!(t.unlock_precheck(0, 0, 1000, 1000).is_ok());
    assert!(matches!(t.state, SessionState::Locked));
}

#[test]
fn recorded_failures_survive_a_restart() {
    // Four failures were recorded before the restart; the next one is the fifth.
    let mut s = SessionManager::new();
    assert!(s.unlock_precheck(0, 4, 0, 1000).is_ok());
    assert_eq!(s.attempts, 4);
    let (r, rec) = s.finish_unlock(Err(CypheriaError::AuthFailed), String::new(), 0, 1000);
    assert!(matches!(r, Err(CypheriaError::RateLimited(30))));
    assert_eq!(rec, AttemptsRecord::Write { count: 0, lockout_until: 1030 });
    assert!(matches!(s.state, SessionState::RateLimited { .. }));
    // A count in memory higher than the recorded one is kept.
    let mut t = SessionManager::new();
    t.attempts = 3;
    assert!(t.unlock_precheck(0, 1, 0, 1000).is_ok());
    assert_eq!(t.attempts, 3);
}

#[test]
fn reveal_rate_limit_allows_ten_per_minute() {
    let mut s = SessionManager::new();
    for _ in 0..10 {
        assert!(s.check_reveal_rate_limit_at(1000).is_ok());
    }
    assert!(matches!(s.check_reveal_rate_limit_at(1015), Err(CypheriaError::RateLimited(45))));
    assert!(s.check_reveal_rate_limit_at(1060).is_ok());
    assert_eq!(s.reveal_count, 1);
    assert_eq!(s.reveal_window_start, 1060);
}

#[test]
fn lock_resets_reveal_limit_and_locks() {
    let mut s = SessionManager::new();
    let _ = s.finish_unlock(Ok(dummy_store()), String::new(), 0, 0);
    s.reveal_count = 7;
    s.reveal_window_start = 99;
    s.lock();
    assert!(matches!(s.state, SessionState::Locked));
    assert_eq!(s.reveal_count, 0);
    assert_eq!(s.reveal_window_start, 0);
    assert!(matches!(s.access(0), Err(CypheriaError::VaultLocked)));
}

#[test]
fn attempts_record_reads_back() {
    let text = format_attempts_record("alice", 3, 1_700_000_000);
    assert!(text.starts_with("3:1700000000|"));
    assert_eq!(text.len(), "3:1700000000|".len() + 64);
    assert_eq!(read_attempts_record("alice", text.clone().into_bytes()), (3, 1_700_000_000));
    let padded = format!("  {}\n", text);
    assert_eq!(read_attempts_record("alice", padded.into_bytes()), (3, 1_700_000_000));
}

#[test]
fn attempts_record_that_is_changed_counts_as_a_full_set() {
    let text = format_attempts_record("alice", 1, 0);
    let forged = text.replacen("1:0", "0:0", 1);
    assert_eq!(read_attempts_record("alice", forged.into_bytes()), (5, 0));
    assert_eq!(read_attempts_record("bob", text.into_bytes()), (5, 0));
    assert_eq!(read_attempts_record("alice", b"2:0".to_vec()), (5, 0));
    assert_eq!(read_attempts_record("alice", b"2:0|".to_vec()), (5, 0));
}

#[test]
fn attempts_record_edge_cases() {
    assert_eq!(read_attempts_record("alice", vec![0xff, 0xfe]), (0, 0));
    let tag = sign_attempts("alice", "12");
    assert_eq!(read_attempts_record("alice", format!("12|{}", tag).into_bytes()), (0, 0));
    let tag = sign_attempts("alice", "x:+7");
    assert_eq!(read_attempts_record("alice", format!("x:+7|{}", tag).into_bytes()), (0, 7));
    assert!(verify_attempts("alice", "12", &sign_attempts("alice", "12")));
    assert!(!verify_attempts("alice", "12", "00"));
}

#[test]
fn attempts_key_folds_the_name() {
    let k = attempts_hmac_key("");
    let suffix = b"cypheria.attempts.v1";
    for i in 0..32 {
        let expected = if i < suffix.len() { suffix[i] } else { 0 };
        assert_eq!(k[i], expected);
    }
    let long = "x".repeat(40);
    let k2 = attempts_hmac_key(&long);
    assert_eq!(k2[0], 0);
    assert_eq!(k2[8], b'x' ^ b'c');
}

#[test]
fn autolock_polls() {
    let mut t = AutoLockTimer::new_at(300, 1000);
    assert_eq!(t.poll(2000), AutoLockStep::Stop);
    assert!(!t.try_start());
    assert!(t.try_start());
    assert_eq!(t.poll(1299), AutoLockStep::Wait);
    assert_eq!(t.poll(1300), AutoLockStep::LockIfUnlocked);
    t.bump_activity_at(1250);
    assert_eq!(t.poll(1300), AutoLockStep::Wait);
    assert_eq!(t.poll(1000), AutoLockStep::Wait);
    t.set_timeout(0);
    assert_eq!(t.get_timeout(), 0);
    assert_eq!(t.poll(99_999), AutoLockStep::Wait);
    t.stop();
    t.stop();
    assert_eq!(t.poll(99_999), AutoLockStep::Stop);
}

#[test]
fn autolock_reads_the_clock() {
    let mut t = AutoLockTimer::new(60);
    t.bump_activity();
    assert_eq!(t.get_timeout(), 60);
    assert!(cypheria::session::autolock::now_secs() > 1_600_000_000);
    assert!(cypheria::session::manager::now_unix_secs() > 1_600_000_000);
}

#[test]
fn reveal_token_is_single_use() {
    let mut store = RevealStore::new();
    let token = store.store("hunter2".to_string()).unwrap();
    let other = store.store("swordfish".to_string()).unwrap();
    assert_ne!(token, other);
    assert_eq!(store.consume(&token), Some("hunter2".to_string()));
    assert_eq!(store.consume(&token), None);
    assert_eq!(store.consume(&other), Some("swordfish".to_string()));
    assert_eq!(store.consume("no-such-token"), None);
}

#[test]
fn with_session_runs_only_while_unlocked() {
    let mut s = SessionManager::new();
    assert!(matches!(s.with_session(0, |_k, _v| Ok(1usize)), Err(CypheriaError::VaultLocked)));
    let _ = s.finish_unlock(Ok(dummy_store()), String::new(), 0, 0);
    let n = s.with_session(0, |_k, v| Ok(v.header.vault_name.len())).unwrap();
    assert_eq!(n, 4);
}

#[test]
fn reveal_check_by_the_clock_opens_a_window() {
    let mut s = SessionManager::new();
    assert!(s.check_reveal_rate_limit().is_ok());
    assert_eq!(s.reveal_count, 1);
    assert!(s.reveal_window_start > 1_600_000_000);
}
