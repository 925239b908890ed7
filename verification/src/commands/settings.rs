//! Reading and saving the settings. The settings travel as JSON text: it is
//! sealed under the settings key inside the vault data, and turned into
//! values outside the library.
use vstd::prelude::*;
use crate::crypto::aes::{open_blob, sealed, MAX_PLAINTEXT_LEN};
use crate::error::{is_rng_error, ok_unless_machine, CypheriaError};
use crate::session::manager::{refused, session_data, session_vk, only_data_changed, SessionManager, SessionState};
use crate::vault::store::{decrypt_settings, settings_key, store_settings};

verus! {

/// The settings' JSON text, when the sealed settings open under the
/// settings key; nothing when they do not (the caller then uses the
/// default settings).
pub fn get_settings(session: &mut SessionManager, now: u64) -> (r: Result<Option<Vec<u8>>, CypheriaError>)
    requires
        old(session).wf(),
    ensures
        final(session).wf(),
        !(old(session).state is Unlocked) ==> refused(old(session), final(session), now, r),
        old(session).state is Unlocked ==> *final(session) == *old(session) && (r matches Ok(o) && match open_blob(settings_key(session_vk(old(session))), session_data(old(session)).settings) {
            Some(p) => o matches Some(j) && j@ == p,
            None => o is None,
        }),
{
    match session.access(now) {
        Ok(()) => {},
        Err(e) => return Err(e),
    }
    match &session.state {
        SessionState::Unlocked { key_store, vault_store, .. } => match decrypt_settings(key_store.vault_key_bytes(), &vault_store.data) {
            Ok(json) => Ok(Some(json)),
            Err(_) => Ok(None),
        },
        _ => Err(CypheriaError::VaultLocked),
    }
}

/// Seals `json` as the vault's settings. Writing the vault file, and
/// applying the new auto-lock timeout, are left to the caller.
pub fn save_settings(session: &mut SessionManager, now: u64, json: &[u8]) -> (r: Result<(), CypheriaError>)
    requires
        old(session).wf(),
    ensures
        final(session).wf(),
        !(old(session).state is Unlocked) ==> refused(old(session), final(session), now, r),
        old(session).state is Unlocked ==> {
            let before = session_data(old(session));
            let after = session_data(final(session));
            &&& only_data_changed(old(session), final(session))
            &&& r is Ok ==> json@.len() <= MAX_PLAINTEXT_LEN
            &&& json@.len() <= MAX_PLAINTEXT_LEN ==> ok_unless_machine(r)
            &&& r matches Err(e) ==> (e == CypheriaError::CryptoError || is_rng_error(e)) && after == before
            &&& r is Ok ==> sealed(settings_key(session_vk(old(session))), json@, after.settings)
            &&& after.entries == before.entries
            &&& after.notes == before.notes
            &&& after.updated_at == before.updated_at
        },
{
    match session.access(now) {
        Ok(()) => {},
        Err(e) => return Err(e),
    }
    match &mut session.state {
        SessionState::Unlocked { key_store, vault_store, .. } => store_settings(key_store.vault_key_bytes(), &mut vault_store.data, json),
        _ => Err(CypheriaError::VaultLocked),
    }
}

} // verus!
