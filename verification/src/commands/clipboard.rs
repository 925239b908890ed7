//! Copying a password to the clipboard without sending it to the frontend,
//! and clearing it again after a delay. The clipboard itself and the
//! timers are handled outside the library.
use vstd::prelude::*;
use crate::commands::ids::{uuid_text_parses, validate_uuid};
use crate::crypto::aes::open_blob;
use crate::crypto::rng::secure_random_bytes;
use crate::error::{is_rng_error, CypheriaError};
use crate::session::manager::{refused, session_data, session_vk, SessionManager, SessionState};
use crate::text::push_char;
use crate::vault::store::{decrypt_settings, settings_key};
use crate::commands::entries::password_read;

verus! {

/// The delay before the clipboard is cleared when the settings say 0.
pub const DEFAULT_CLEAR_SECS: u64 = 30;

/// How many noise strings overwrite the clipboard before it is emptied.
pub const NOISE_ROUNDS: usize = 3;

/// The length of each noise string.
pub const NOISE_LEN: usize = 32;

/// The delay before the clipboard is cleared: the setting, or 30 seconds
/// when it is 0.
pub fn clipboard_clear_delay(setting_secs: u64) -> (r: u64)
    ensures
        r == (if setting_secs == 0 { DEFAULT_CLEAR_SECS } else { setting_secs }),
{
    if setting_secs == 0 {
        DEFAULT_CLEAR_SECS
    } else {
        setting_secs
    }
}

/// A printable ASCII character other than space (`!` through `~`).
pub open spec fn is_noise_char(c: char) -> bool {
    33 <= (c as u32) <= 126
}

/// The noise character for a random byte: `!` plus the byte modulo 94.
pub fn noise_char(b: u8) -> (c: char)
    ensures
        c as u32 == 33 + b % 94,
        is_noise_char(c),
{
    let v: u8 = 33 + b % 94;
    v as char
}

/// A string of 32 random noise characters, to overwrite the clipboard with;
/// the random-source error when the operating system cannot supply bytes.
pub fn clipboard_noise() -> (r: Result<String, CypheriaError>)
    ensures
        r matches Ok(s) ==> s@.len() == NOISE_LEN && forall|i: int| 0 <= i < s@.len() ==> is_noise_char(#[trigger] s@[i]),
        r matches Err(e) ==> is_rng_error(e),
{
    let mut s = String::new();
    for i in 0..NOISE_LEN
        invariant
            s@.len() == i,
            forall|j: int| 0 <= j < s@.len() ==> is_noise_char(#[trigger] s@[j]),
    {
        let b = secure_random_bytes::<1>()?;
        let c = noise_char(b[0]);
        let ghost before = s@;
        push_char(&mut s, c);
        assert(forall|j: int| 0 <= j < before.len() ==> s@[j] == before[j]);
    }
    Ok(s)
}

/// Fails with `VaultLocked` unless the session is unlocked.
pub fn check_unlocked(session: &SessionManager) -> (r: Result<(), CypheriaError>)
    ensures
        r is Ok <==> session.state is Unlocked,
        r matches Err(e) ==> e == CypheriaError::VaultLocked,
{
    if session.is_unlocked() {
        Ok(())
    } else {
        Err(CypheriaError::VaultLocked)
    }
}

/// What copying the password of entry `entry_id` needs: the password, and
/// the settings' JSON text (nothing when the settings do not open), from
/// which the caller reads the clearing delay.
pub fn entry_password_for_clipboard(session: &mut SessionManager, now: u64, entry_id: &str) -> (r: Result<(String, Option<Vec<u8>>), CypheriaError>)
    requires
        old(session).wf(),
    ensures
        final(session).wf(),
        !uuid_text_parses(entry_id@) ==> (r matches Err(CypheriaError::InvalidInput(m)) && m@ == "Invalid ID format"@ && *final(session) == *old(session)),
        uuid_text_parses(entry_id@) ==> {
            &&& !(old(session).state is Unlocked) ==> refused(old(session), final(session), now, r)
            &&& old(session).state is Unlocked ==> {
                let vk = session_vk(old(session));
                let data = session_data(old(session));
                &&& *final(session) == *old(session)
                &&& r matches Ok(x) ==> password_read(vk, data.entries, entry_id@, Ok::<String, CypheriaError>(x.0)) && match open_blob(settings_key(vk), data.settings) {
                    Some(p) => x.1 matches Some(j) && j@ == p,
                    None => x.1 is None,
                }
                &&& r matches Err(e) ==> password_read(vk, data.entries, entry_id@, Err::<String, CypheriaError>(e))
            }
        },
{
    validate_uuid(entry_id)?;
    match session.access(now) {
        Ok(()) => {},
        Err(e) => return Err(e),
    }
    match &session.state {
        SessionState::Unlocked { key_store, vault_store, .. } => {
            let pwd = crate::vault::entry::get_entry_password(key_store.vault_key_bytes(), &vault_store.data, entry_id)?;
            let settings = match decrypt_settings(key_store.vault_key_bytes(), &vault_store.data) {
                Ok(json) => Some(json),
                Err(_) => None,
            };
            Ok((pwd, settings))
        },
        _ => Err(CypheriaError::VaultLocked),
    }
}

} // verus!
