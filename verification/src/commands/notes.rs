//! The note commands: list, read, save (add or update) and delete. Like
//! the entry commands, each validates its input and then goes through the
//! session's access check.
use vstd::prelude::*;
use crate::commands::ids::{uuid_text_parses, validate_uuid};
use crate::error::{machine_failed, ok_unless_machine, CypheriaError};
use crate::models::note::{NoteContentView, NoteInput, NoteView};
use crate::session::manager::{refused, session_data, session_vk, only_data_changed, SessionManager, SessionState};
use crate::text::{str_eq, string_of, utf8_len};
use crate::time::utc_now;
use crate::vault::format::{EncryptedNote, NoteRecord, VaultData};
use crate::vault::notes::{find_note, note_added, note_input_error, note_payload, note_payload_error, note_read, note_shown, note_updated};

verus! {

broadcast use vstd::string::group_string_axioms;

/// `r` is what listing `notes` gives: every note shown, in order; or the
/// error of the first note that does not open.
pub open spec fn notes_listed(vk: Seq<u8>, notes: Seq<NoteRecord>, r: Result<Vec<NoteView>, CypheriaError>) -> bool {
    match r {
        Ok(vs) => vs@.len() == notes.len() && forall|i: int| 0 <= i < notes.len() ==> note_shown(vk, notes[i], &#[trigger] vs@[i]),
        Err(e) => exists|i: int|
            0 <= i < notes.len() && (forall|j: int| 0 <= j < i ==> (#[trigger] note_payload(vk, notes[j])) is Some)
                && note_payload(vk, #[trigger] notes[i]) is None && e == note_payload_error(vk, notes[i]),
    }
}

/// The notes without those whose id is `id`.
pub open spec fn notes_without(notes: Seq<NoteRecord>, id: Seq<char>) -> Seq<NoteRecord> {
    notes.filter(|n: NoteRecord| n.id != id)
}

/// Decrypts every note for display, in order; stops at the first that does
/// not open.
pub fn decrypt_all_notes(vault_key: &[u8; 32], vault_data: &VaultData) -> (r: Result<Vec<NoteView>, CypheriaError>)
    requires
        vault_data@.wf(),
    ensures
        notes_listed(vault_key@, vault_data@.notes, r),
{
    let ghost notes = vault_data@.notes;
    let mut views: Vec<NoteView> = Vec::new();
    let n = vault_data.notes.len();
    for i in 0..n
        invariant
            n == notes.len(),
            notes == vault_data@.notes,
            vault_data@.wf(),
            views@.len() == i,
            forall|j: int| 0 <= j < i ==> note_shown(vault_key@, notes[j], &#[trigger] views@[j]),
    {
        assert(vault_data.notes@[i as int]@ == notes[i as int]);
        assert(notes[i as int].wf());
        match crate::vault::notes::decrypt_note(vault_key, &vault_data.notes[i]) {
            Ok(v) => views.push(v),
            Err(e) => {
                proof {
                    assert forall|j: int| 0 <= j < i implies (#[trigger] note_payload(vault_key@, notes[j])) is Some by {
                        assert(note_shown(vault_key@, notes[j], &views@[j]));
                    }
                }
                return Err(e);
            },
        }
    }
    Ok(views)
}

/// Removes every note whose id is `id`, keeping the others in order.
fn remove_notes_with_id(notes: &mut Vec<EncryptedNote>, id: &str)
    requires
        forall|j: int| 0 <= j < old(notes)@.len() ==> (#[trigger] old(notes)@[j])@.wf(),
    ensures
        final(notes)@.map_values(|n: EncryptedNote| n@) == notes_without(old(notes)@.map_values(|n: EncryptedNote| n@), id@),
        forall|j: int| 0 <= j < final(notes)@.len() ==> (#[trigger] final(notes)@[j])@.wf(),
{
    let ghost all = notes@;
    let ghost before = all.map_values(|n: EncryptedNote| n@);
    let mut kept: Vec<EncryptedNote> = Vec::new();
    let n = notes.len();
    let mut i: usize = 0;
    proof {
        reveal(Seq::filter);
        assert(before.take(0) =~= Seq::<NoteRecord>::empty());
        assert(kept@.map_values(|n: EncryptedNote| n@) =~= Seq::<NoteRecord>::empty());
    }
    while i < n
        invariant
            n == all.len(),
            i <= n,
            before == all.map_values(|n: EncryptedNote| n@),
            notes@ == all.skip(i as int),
            kept@.map_values(|n: EncryptedNote| n@) == notes_without(before.take(i as int), id@),
            forall|j: int| 0 <= j < all.len() ==> (#[trigger] all[j])@.wf(),
            forall|j: int| 0 <= j < kept@.len() ==> (#[trigger] kept@[j])@.wf(),
        decreases n - i,
    {
        let note = notes.remove(0);
        assert(note == all[i as int]);
        assert(notes@ =~= all.skip(i + 1));
        let ghost prev = before.take(i as int);
        proof {
            reveal(Seq::filter);
            assert(before.take(i + 1).drop_last() =~= prev);
            assert(before.take(i + 1).last() == note@);
        }
        if !str_eq(note.id.as_str(), id) {
            let ghost kv = kept@;
            kept.push(note);
            assert(kept@.map_values(|n: EncryptedNote| n@) =~= kv.map_values(|n: EncryptedNote| n@).push(all[i as int]@));
        }
        i = i + 1;
    }
    assert(before.take(n as int) =~= before);
    *notes = kept;
}

/// Lists every note for display, without its content.
pub fn get_all_notes(session: &mut SessionManager, now: u64) -> (r: Result<Vec<NoteView>, CypheriaError>)
    requires
        old(session).wf(),
    ensures
        final(session).wf(),
        old(session).state is Unlocked ==> *final(session) == *old(session) && notes_listed(session_vk(old(session)), session_data(old(session)).notes, r),
        !(old(session).state is Unlocked) ==> refused(old(session), final(session), now, r),
{
    match session.access(now) {
        Ok(()) => {},
        Err(e) => return Err(e),
    }
    match &session.state {
        SessionState::Unlocked { key_store, vault_store, .. } => decrypt_all_notes(key_store.vault_key_bytes(), &vault_store.data),
        _ => Err(CypheriaError::VaultLocked),
    }
}

/// Reads note `note_id` with its content.
pub fn get_note_content(session: &mut SessionManager, now: u64, note_id: &str) -> (r: Result<NoteContentView, CypheriaError>)
    requires
        old(session).wf(),
    ensures
        final(session).wf(),
        !uuid_text_parses(note_id@) ==> (r matches Err(CypheriaError::InvalidInput(m)) && m@ == "Invalid ID format"@ && *final(session) == *old(session)),
        uuid_text_parses(note_id@) ==> {
            &&& old(session).state is Unlocked ==> *final(session) == *old(session) && note_read(session_vk(old(session)), session_data(old(session)).notes, note_id@, r)
            &&& !(old(session).state is Unlocked) ==> refused(old(session), final(session), now, r)
        },
{
    validate_uuid(note_id)?;
    match session.access(now) {
        Ok(()) => {},
        Err(e) => return Err(e),
    }
    match &session.state {
        SessionState::Unlocked { key_store, vault_store, .. } => crate::vault::notes::get_note_content(
            key_store.vault_key_bytes(),
            &vault_store.data,
            note_id,
        ),
        _ => Err(CypheriaError::VaultLocked),
    }
}

/// Saves a note: updates note `id` when one is given, else adds a new note.
/// Returns the note's id.
pub fn save_note(session: &mut SessionManager, now: u64, note_id: Option<String>, input: NoteInput) -> (r: Result<String, CypheriaError>)
    requires
        old(session).wf(),
    ensures
        final(session).wf(),
        (note_id matches Some(id) && !uuid_text_parses(id@)) ==> (r matches Err(CypheriaError::InvalidInput(m)) && m@ == "Invalid ID format"@ && *final(session) == *old(session)),
        (note_id matches Some(id) ==> uuid_text_parses(id@)) ==> {
            &&& !(old(session).state is Unlocked) ==> refused(old(session), final(session), now, r)
            &&& old(session).state is Unlocked ==> {
                let before = session_data(old(session));
                let after = session_data(final(session));
                let vk = session_vk(old(session));
                &&& only_data_changed(old(session), final(session))
                &&& note_input_error(&input) matches Some(m) ==> (r matches Err(CypheriaError::InvalidInput(s)) && s@ == m)
                &&& r is Err ==> after == before
                &&& match note_id {
                    Some(id) => {
                        &&& (note_input_error(&input) is None && find_note(before.notes, id@) is None) ==> (r matches Err(CypheriaError::NoteNotFound(s)) && s@ == id@)
                        &&& (note_input_error(&input) is None && utf8_len(input.title@) <= 0x1000_0000 && find_note(before.notes, id@) is Some) ==> ok_unless_machine(r)
                        &&& r matches Ok(rid) ==> rid@ == id@ && (find_note(before.notes, id@) matches Some(i) && note_updated(vk, before, after, i, &input))
                    },
                    None => {
                        &&& (note_input_error(&input) is None && utf8_len(input.title@) <= 0x1000_0000) ==> ok_unless_machine(r)
                        &&& r matches Ok(rid) ==> uuid_text_parses(rid@) && note_added(vk, before, after, &input, rid@)
                    },
                }
            }
        },
{
    if let Some(id) = &note_id {
        validate_uuid(id.as_str())?;
    }
    match session.access(now) {
        Ok(()) => {},
        Err(e) => return Err(e),
    }
    match &mut session.state {
        SessionState::Unlocked { key_store, vault_store, .. } => match note_id {
            Some(id) => {
                crate::vault::notes::update_note(key_store.vault_key_bytes(), &mut vault_store.data, id.as_str(), input)?;
                Ok(id)
            },
            None => crate::vault::notes::add_note(key_store.vault_key_bytes(), &mut vault_store.data, input),
        },
        _ => Err(CypheriaError::VaultLocked),
    }
}

/// Deletes every note with id `note_id` and stamps the vault's update time;
/// `NoteNotFound` when there is none.
pub fn delete_note(session: &mut SessionManager, now: u64, note_id: &str) -> (r: Result<(), CypheriaError>)
    requires
        old(session).wf(),
    ensures
        final(session).wf(),
        !uuid_text_parses(note_id@) ==> (r matches Err(CypheriaError::InvalidInput(m)) && m@ == "Invalid ID format"@ && *final(session) == *old(session)),
        uuid_text_parses(note_id@) ==> {
            &&& !(old(session).state is Unlocked) ==> refused(old(session), final(session), now, r)
            &&& old(session).state is Unlocked ==> {
                let before = session_data(old(session));
                let after = session_data(final(session));
                &&& only_data_changed(old(session), final(session))
                &&& find_note(before.notes, note_id@) is None ==> (r matches Err(CypheriaError::NoteNotFound(s)) && s@ == note_id@ && after == before)
                &&& find_note(before.notes, note_id@) is Some ==> {
                    ||| machine_failed(r) && after == before
                    ||| {
                        &&& r is Ok
                        &&& after.notes == notes_without(before.notes, note_id@)
                        &&& after.entries == before.entries
                        &&& after.settings == before.settings
                    }
                }
            }
        },
{
    validate_uuid(note_id)?;
    match session.access(now) {
        Ok(()) => {},
        Err(e) => return Err(e),
    }
    match &mut session.state {
        SessionState::Unlocked { vault_store, .. } => {
            let ghost before = vault_store.data@;
            let found = crate::vault::notes::find_note_index(&vault_store.data.notes, note_id);
            if found.is_none() {
                return Err(CypheriaError::NoteNotFound(string_of(note_id)));
            }
            let stamp = utc_now()?;
            assert forall|j: int| 0 <= j < vault_store.data.notes@.len() implies (#[trigger] vault_store.data.notes@[j])@.wf() by {
                assert(before.notes[j] == vault_store.data.notes@[j]@);
            }
            remove_notes_with_id(&mut vault_store.data.notes, note_id);
            vault_store.data.updated_at = stamp;
            proof {
                assert(vault_store.data@.entries == before.entries);
                assert forall|k: int| 0 <= k < vault_store.data@.notes.len() implies (#[trigger] vault_store.data@.notes[k]).wf() by {
                    assert(vault_store.data@.notes[k] == vault_store.data.notes@[k]@);
                }
            }
            Ok(())
        },
        _ => Err(CypheriaError::VaultLocked),
    }
}

} // verus!
