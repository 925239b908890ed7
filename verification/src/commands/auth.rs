//! Creating a vault and changing its master password.
//!
//! A vault is protected by a key hierarchy: the master password derives
//! the master key (Argon2id with the header's salt and parameters); the
//! master key wraps the random vault key, and seals the Kyber secret key;
//! the vault key is also wrapped under a Kyber shared secret, so that the
//! Kyber secret key alone recovers it. Changing the password re-derives the
//! master key from a new salt and re-wraps the vault key: the vault key,
//! and so every entry, note and the settings, stay as they are.
use vstd::prelude::*;
use crate::crypto::aes::{self, open_blob, sealed, unwrapped, MAX_PLAINTEXT_LEN};
use crate::crypto::kdf::{self, argon2_ok, argon2id, ARGON2_ITERATIONS, ARGON2_MEMORY_KB, ARGON2_PARALLELISM};
use crate::crypto::keys::{wipe_array, wipe_vec, ActiveKeyStore, MasterKey};
use crate::crypto::kyber::{self, pq_recovered, KYBER_CIPHERTEXT_LEN, KYBER_PUBLIC_KEY_LEN, KYBER_SECRET_KEY_LEN};
use crate::crypto::mac::ct_eq;
use crate::crypto::rng;
use crate::error::{invalid_input, machine_error, machine_failed, CypheriaError};
use crate::session::manager::{refused, session_data, session_vk, SessionManager, SessionState};
use crate::vault::entry::entry_payload;
use crate::vault::notes::note_payload;
use crate::text::{byte_len, str_trim, trim, utf8_len};
use crate::time::utc_now;
use crate::vault::format::{EncryptedSettings, VaultData, VaultHeader, FORMAT_VERSION};
use crate::vault::store::{encrypt_settings, header_master_key, open_outcome, persisted, settings_key, VaultStore};

verus! {

broadcast use vstd::string::group_string_axioms;

/// The shortest master password, in UTF-8 bytes.
pub const MIN_PASSWORD_LEN: usize = 8;

/// A vault made by `build_vault`, before it is written.
pub struct NewVault {
    pub key_store: ActiveKeyStore,
    pub header: VaultHeader,
    pub data: VaultData,
}

// ── Specifications ─────────────────────────────────────────────────────────

/// `h` protects vault key `vk` under `password`: it records the current
/// Argon2id parameters, `password` derives master key `mk` with them, `mk`
/// unwraps `vk`, and `mk` opens a Kyber secret key of the right length
/// with which the header's Kyber ciphertext recovers `vk` too (the
/// post-quantum path).
pub open spec fn header_protects(password: Seq<u8>, mk: Seq<u8>, vk: Seq<u8>, h: &VaultHeader) -> bool {
    &&& h.kdf_memory_kb == ARGON2_MEMORY_KB
    &&& h.kdf_iterations == ARGON2_ITERATIONS
    &&& h.kdf_parallelism == ARGON2_PARALLELISM
    &&& argon2_ok(password, h.kdf_memory_kb, h.kdf_iterations, h.kdf_parallelism)
    &&& header_master_key(password, h) == mk
    &&& mk.len() == 32
    &&& unwrapped(mk, h.vk_wrapped_classical@) == Some(vk)
    &&& h.kyber_public_key@.len() == KYBER_PUBLIC_KEY_LEN
    &&& h.kyber_ciphertext@.len() == KYBER_CIPHERTEXT_LEN
    &&& open_blob(mk, h.kyber_sk_encrypted@) matches Some(sk) && sk.len() == KYBER_SECRET_KEY_LEN
        && pq_recovered(sk, h.kyber_ciphertext@, h.vk_wrapped_pq@) == Some(vk)
}

/// `after` is `before` with its master password changed to `password`:
/// the same vault key, data, path and counters, a header that protects the
/// vault key under the new password, and the header's metadata kept.
pub open spec fn password_changed(before: &SessionManager, after: &SessionManager, password: Seq<u8>) -> bool {
    &&& before.state matches SessionState::Unlocked { key_store, vault_store, vault_path, unlocked_at }
    &&& after.state matches SessionState::Unlocked { key_store: k2, vault_store: v2, vault_path: p2, unlocked_at: u2 }
    &&& after.attempts == before.attempts
    &&& after.reveal_count == before.reveal_count
    &&& after.reveal_window_start == before.reveal_window_start
    &&& p2 == vault_path
    &&& u2 == unlocked_at
    &&& v2.data == vault_store.data
    &&& k2.vk() == key_store.vk()
    &&& header_protects(password, k2.mk(), k2.vk(), &v2.header)
    &&& v2.header.created_at == vault_store.header.created_at
    &&& v2.header.vault_name == vault_store.header.vault_name
    &&& v2.header.format_version == vault_store.header.format_version
}

pub open spec fn short_password_text() -> Seq<char> {
    "Password must be at least 8 characters"@
}

pub open spec fn empty_name_text() -> Seq<char> {
    "Vault name cannot be empty"@
}

pub open spec fn short_new_password_text() -> Seq<char> {
    "New password must be at least 8 characters"@
}

// ── Creating a vault ───────────────────────────────────────────────────────

/// Checks the input of a new vault: a master password of at least 8 bytes
/// and a name that is not blank.
pub fn validate_new_vault(password: &str, vault_name: &str) -> (r: Result<(), CypheriaError>)
    ensures
        utf8_len(password@) < MIN_PASSWORD_LEN ==> (r matches Err(CypheriaError::InvalidInput(m)) && m@ == short_password_text()),
        utf8_len(password@) >= MIN_PASSWORD_LEN && trim(vault_name@).len() == 0 ==> (r matches Err(CypheriaError::InvalidInput(m)) && m@ == empty_name_text()),
        utf8_len(password@) >= MIN_PASSWORD_LEN && trim(vault_name@).len() > 0 ==> r is Ok,
{
    if byte_len(password) < MIN_PASSWORD_LEN {
        return Err(invalid_input("Password must be at least 8 characters"));
    }
    if crate::text::is_empty_text(str_trim(vault_name)) {
        return Err(invalid_input("Vault name cannot be empty"));
    }
    Ok(())
}

/// Makes a new vault for `password`: a random salt and vault key, the
/// master key derived with the current Argon2id parameters, a fresh Kyber
/// key pair, and empty data whose settings are `settings_json` sealed under
/// the settings key.
///
/// Fails with `KdfError` for a password longer than 2^32 − 1 bytes, and
/// with `CryptoError` for settings longer than 2^36 bytes; otherwise it
/// fails only when the random source or the clock fails.
pub fn build_vault(password: &[u8], vault_name: String, settings_json: &[u8]) -> (r: Result<NewVault, CypheriaError>)
    ensures
        r is Ok ==> (password@.len() <= 0xFFFF_FFFF && settings_json@.len() <= MAX_PLAINTEXT_LEN),
        !machine_failed(r) ==> (r is Ok <==> (password@.len() <= 0xFFFF_FFFF && settings_json@.len() <= MAX_PLAINTEXT_LEN)),
        r matches Err(e) ==> (machine_error(e) || e == (if password@.len() > 0xFFFF_FFFF {
            CypheriaError::KdfError
        } else {
            CypheriaError::CryptoError
        })),
        r matches Ok(v) ==> {
            &&& header_protects(password@, v.key_store.mk(), v.key_store.vk(), &v.header)
            &&& v.key_store.vk().len() == 32
            &&& v.header.vault_name@ == vault_name@
            &&& v.header.format_version == FORMAT_VERSION
            &&& v.header.created_at.valid()
            &&& v.data@.wf()
            &&& v.data@.entries.len() == 0
            &&& v.data@.notes.len() == 0
            &&& sealed(settings_key(v.key_store.vk()), settings_json@, v.data@.settings)
        },
{
    let now = utc_now()?;
    let salt = rng::argon2_salt()?;
    let mut mk = kdf::derive_master_key(password, &salt)?;
    let mut vk = match rng::entry_key() {
        Ok(k) => k,
        Err(e) => {
            wipe_array(&mut mk);
            return Err(e);
        },
    };
    let vk_wrapped_classical = aes::wrap_key(&mk, &vk)?;
    let kp = kyber::generate_keypair();
    let (kyber_ciphertext, vk_wrapped_pq) = kyber::encapsulate_vault_key(kp.public_key.as_slice(), &vk)?;
    let mut secret_key = kp.secret_key;
    if let Err(e) = kyber::check_pq_path(secret_key.as_slice(), kyber_ciphertext.as_slice(), vk_wrapped_pq.as_slice(), &vk) {
        wipe_vec(&mut secret_key);
        wipe_array(&mut mk);
        wipe_array(&mut vk);
        return Err(e);
    }
    let kyber_sk_encrypted = aes::encrypt(&mk, secret_key.as_slice())?;
    let ghost sk = secret_key@;
    wipe_vec(&mut secret_key);
    let settings_encrypted = match encrypt_settings(&vk, settings_json) {
        Ok(b) => b,
        Err(e) => {
            wipe_array(&mut mk);
            wipe_array(&mut vk);
            return Err(e);
        },
    };
    let data = VaultData {
        entries: Vec::new(),
        notes: Vec::new(),
        settings: EncryptedSettings { payload_encrypted: settings_encrypted },
        updated_at: now,
    };
    let header = VaultHeader {
        argon2_salt: salt,
        kdf_memory_kb: ARGON2_MEMORY_KB,
        kdf_iterations: ARGON2_ITERATIONS,
        kdf_parallelism: ARGON2_PARALLELISM,
        vk_wrapped_classical,
        kyber_public_key: kp.public_key,
        kyber_sk_encrypted,
        kyber_ciphertext,
        vk_wrapped_pq,
        created_at: now,
        vault_name,
        format_version: FORMAT_VERSION,
    };
    proof {
        aes::lemma_unwrap_wrapped(mk@, vk@, header.vk_wrapped_classical@);
        aes::lemma_open_sealed(mk@, sk, header.kyber_sk_encrypted@);
        assert(data@.entries =~= Seq::empty());
        assert(data@.notes =~= Seq::empty());
    }
    let key_store = ActiveKeyStore::new(mk, vk);
    Ok(NewVault { key_store, header, data })
}

// ── Changing the master password ───────────────────────────────────────────

/// Re-keys an unlocked vault to `new_password`, whose master key `new_mk`
/// was derived from `new_salt` with the current parameters: `old_password`
/// must derive the session's master key with the header's parameters.
/// Only the key material of the header and the master key change.
fn rekey(
    key_store: &mut ActiveKeyStore,
    header: &mut VaultHeader,
    old_password: &[u8],
    new_salt: [u8; 32],
    new_mk: [u8; 32],
) -> (r: Result<(), CypheriaError>)
    ensures
        !argon2_ok(old_password@, old(header).kdf_memory_kb, old(header).kdf_iterations, old(header).kdf_parallelism) ==> r == Err::<(), CypheriaError>(CypheriaError::KdfError),
        argon2_ok(old_password@, old(header).kdf_memory_kb, old(header).kdf_iterations, old(header).kdf_parallelism) && header_master_key(old_password@, old(header)) != old(key_store).mk() ==> r == Err::<(), CypheriaError>(CypheriaError::AuthFailed),
        argon2_ok(old_password@, old(header).kdf_memory_kb, old(header).kdf_iterations, old(header).kdf_parallelism) && header_master_key(old_password@, old(header)) == old(key_store).mk() ==> (r is Ok || machine_failed(r)),
        r is Err ==> *final(key_store) == *old(key_store) && *final(header) == *old(header),
        r is Ok ==> {
            &&& final(key_store).mk() == new_mk@
            &&& final(key_store).vk() == old(key_store).vk()
            &&& final(header).argon2_salt == new_salt
            &&& final(header).kdf_memory_kb == ARGON2_MEMORY_KB
            &&& final(header).kdf_iterations == ARGON2_ITERATIONS
            &&& final(header).kdf_parallelism == ARGON2_PARALLELISM
            &&& unwrapped(new_mk@, final(header).vk_wrapped_classical@) == Some(old(key_store).vk())
            &&& final(header).kyber_public_key@.len() == KYBER_PUBLIC_KEY_LEN
            &&& final(header).kyber_ciphertext@.len() == KYBER_CIPHERTEXT_LEN
            &&& open_blob(new_mk@, final(header).kyber_sk_encrypted@) matches Some(sk) && sk.len() == KYBER_SECRET_KEY_LEN
                && pq_recovered(sk, final(header).kyber_ciphertext@, final(header).vk_wrapped_pq@) == Some(old(key_store).vk())
            &&& final(header).created_at == old(header).created_at
            &&& final(header).vault_name == old(header).vault_name
            &&& final(header).format_version == old(header).format_version
        },
{
    let mut derived = match kdf::derive_master_key_with_params(
        old_password,
        &header.argon2_salt,
        header.kdf_memory_kb,
        header.kdf_iterations,
        header.kdf_parallelism,
    ) {
        Ok(k) => k,
        Err(_) => return Err(CypheriaError::KdfError),
    };
    let keys_match = ct_eq(&derived, key_store.master_key_bytes());
    wipe_array(&mut derived);
    if !keys_match {
        return Err(CypheriaError::AuthFailed);
    }
    let vk = key_store.vault_key_bytes();
    let vk_wrapped_classical = aes::wrap_key(&new_mk, vk)?;
    let kp = kyber::generate_keypair();
    let (kyber_ciphertext, vk_wrapped_pq) = kyber::encapsulate_vault_key(kp.public_key.as_slice(), vk)?;
    let mut secret_key = kp.secret_key;
    if let Err(e) = kyber::check_pq_path(secret_key.as_slice(), kyber_ciphertext.as_slice(), vk_wrapped_pq.as_slice(), vk) {
        wipe_vec(&mut secret_key);
        return Err(e);
    }
    let kyber_sk_encrypted = aes::encrypt(&new_mk, secret_key.as_slice())?;
    let ghost sk = secret_key@;
    wipe_vec(&mut secret_key);
    proof {
        aes::lemma_unwrap_wrapped(new_mk@, key_store.vk(), vk_wrapped_classical@);
        aes::lemma_open_sealed(new_mk@, sk, kyber_sk_encrypted@);
    }
    header.argon2_salt = new_salt;
    header.vk_wrapped_classical = vk_wrapped_classical;
    header.kyber_public_key = kp.public_key;
    header.kyber_sk_encrypted = kyber_sk_encrypted;
    header.kyber_ciphertext = kyber_ciphertext;
    header.vk_wrapped_pq = vk_wrapped_pq;
    key_store.master_key = MasterKey::new(new_mk);
    header.kdf_memory_kb = ARGON2_MEMORY_KB;
    header.kdf_iterations = ARGON2_ITERATIONS;
    header.kdf_parallelism = ARGON2_PARALLELISM;
    Ok(())
}

/// Changes the master password of the unlocked vault.
///
/// The new password must have at least 8 bytes; its master key is derived
/// from a fresh salt before the session is entered. Inside the session the
/// old password must derive the current master key (`AuthFailed`
/// otherwise). On success the vault key is wrapped under the new master
/// key, a fresh Kyber key pair replaces the old one, the header records the
/// current Argon2id parameters, and the session holds the new master key.
/// Writing the vault file is left to the caller.
pub fn change_master_password(session: &mut SessionManager, now: u64, old_password: &[u8], new_password: &[u8]) -> (r: Result<(), CypheriaError>)
    requires
        old(session).wf(),
    ensures
        final(session).wf(),
        new_password@.len() < MIN_PASSWORD_LEN ==> (r matches Err(CypheriaError::InvalidInput(m)) && m@ == short_new_password_text() && *final(session) == *old(session)),
        machine_failed(r) ==> *final(session) == *old(session),
        new_password@.len() > 0xFFFF_FFFF && !machine_failed(r) ==> (r == Err::<(), CypheriaError>(CypheriaError::KdfError) && *final(session) == *old(session)),
        MIN_PASSWORD_LEN <= new_password@.len() <= 0xFFFF_FFFF && !machine_failed(r) ==> {
            &&& !(old(session).state is Unlocked) ==> refused(old(session), final(session), now, r)
            &&& old(session).state matches SessionState::Unlocked { key_store, vault_store, vault_path, unlocked_at } ==> {
                let h = vault_store.header;
                let old_ok = argon2_ok(old_password@, h.kdf_memory_kb, h.kdf_iterations, h.kdf_parallelism);
                &&& !old_ok ==> r == Err::<(), CypheriaError>(CypheriaError::KdfError) && *final(session) == *old(session)
                &&& old_ok && header_master_key(old_password@, &h) != key_store.mk() ==> r == Err::<(), CypheriaError>(CypheriaError::AuthFailed) && *final(session) == *old(session)
                &&& old_ok && header_master_key(old_password@, &h) == key_store.mk() ==> r is Ok && password_changed(old(session), final(session), new_password@)
            }
        },
{
    if new_password.len() < MIN_PASSWORD_LEN {
        return Err(invalid_input("New password must be at least 8 characters"));
    }
    let new_salt = rng::argon2_salt()?;
    let mut new_mk = kdf::derive_master_key(new_password, &new_salt)?;
    match session.access(now) {
        Ok(()) => {},
        Err(e) => {
            wipe_array(&mut new_mk);
            return Err(e);
        },
    }
    let r = match &mut session.state {
        SessionState::Unlocked { key_store, vault_store, .. } => rekey(key_store, &mut vault_store.header, old_password, new_salt, new_mk),
        _ => Err(CypheriaError::VaultLocked),
    };
    wipe_array(&mut new_mk);
    r
}

// ── Laws ───────────────────────────────────────────────────────────────────

/// A vault opens with the password that protects its header: when the file
/// was written by `encode_vault_file` with the header's keys, reading it
/// with that password gives back the keys and the data. This holds of a
/// new vault (`build_vault`) and of one whose password was changed
/// (`change_master_password`), for the new password.
pub proof fn lemma_vault_opens_with_its_password(
    password: Seq<u8>,
    mk: Seq<u8>,
    vk: Seq<u8>,
    header: &VaultHeader,
    header_bytes: Seq<u8>,
    data_plaintext: Seq<u8>,
    file: Seq<u8>,
)
    requires
        header_protects(password, mk, vk, header),
        persisted(mk, vk, data_plaintext, header_bytes, file),
        header_bytes.len() <= u32::MAX,
        data_plaintext.len() + 28 <= u32::MAX,
    ensures
        crate::vault::store::layout_of(file) == Some((crate::vault::format::FILE_LAYOUT_VERSION, 15 + header_bytes.len() as int)),
        open_outcome(password, file, crate::vault::format::FILE_LAYOUT_VERSION, 15 + header_bytes.len() as int, header)
            == Ok::<(Seq<u8>, Seq<u8>, Seq<u8>), CypheriaError>((mk, vk, data_plaintext)),
{
    crate::vault::store::lemma_reopen_persisted(password, mk, vk, data_plaintext, header_bytes, header, file);
}

/// A password change keeps what the vault holds: the vault key and the
/// data are the same afterwards, so every entry, note and the settings open
/// as they did, and every entry's password reads as before.
pub proof fn lemma_password_change_keeps_records(before: &SessionManager, after: &SessionManager, password: Seq<u8>)
    requires
        password_changed(before, after, password),
    ensures
        session_vk(after) == session_vk(before),
        session_data(after) == session_data(before),
        forall|i: int| 0 <= i < session_data(before).entries.len() ==>
            #[trigger] entry_payload(session_vk(after), session_data(after).entries[i]) == entry_payload(session_vk(before), session_data(before).entries[i]),
        forall|i: int| 0 <= i < session_data(before).notes.len() ==>
            #[trigger] note_payload(session_vk(after), session_data(after).notes[i]) == note_payload(session_vk(before), session_data(before).notes[i]),
        open_blob(settings_key(session_vk(after)), session_data(after).settings) == open_blob(settings_key(session_vk(before)), session_data(before).settings),
{
}

} // verus!
