//! Notes: add, decrypt for display, read the content, update. A note is
//! sealed like an entry: under its own random key, wrapped under the vault key.
use vstd::prelude::*;
use crate::crypto::aes::{self, open_blob, open_error, sealed, unwrap_error, unwrapped, MAX_PLAINTEXT_LEN};
use crate::crypto::keys::{wipe_array, wipe_vec};
use crate::crypto::rng;
use crate::error::{invalid_input, is_rng_error, machine_error, ok_unless_machine, CypheriaError};
use crate::models::note::{NoteContentView, NoteInput, NoteView};
use crate::text::{byte_len, clone_string, find_id, lemma_find_id, lemma_find_id_prefix, str_eq, str_trim, string_of, trim, utf8_len};
use crate::time::{rfc3339, to_rfc3339, utc_now};
use crate::vault::format::{EncryptedNote, NotePayload, NoteRecord, VaultData, VaultDataView};
use crate::vault::payload::{decode_note_payload, encode_note_payload, note_text_bytes, note_text_of, NoteText};
use crate::commands::ids::{new_uuid_string, uuid_text_parses};

verus! {

broadcast use vstd::string::group_string_axioms;

// ── Specifications ─────────────────────────────────────────────────────────

/// The message of the first rule that a note input breaks. The title is
/// measured after trimming whitespace; lengths are in UTF-8 bytes.
pub open spec fn note_input_error(input: &NoteInput) -> Option<Seq<char>> {
    if trim(input.title@).len() == 0 {
        Some("Note title cannot be empty"@)
    } else if utf8_len(trim(input.title@)) > 256 {
        Some("Note title too long (max 256 chars)"@)
    } else if utf8_len(input.content@) > 1_048_576 {
        Some("Note content too long (max 1 MB)"@)
    } else {
        None
    }
}

/// The note that an input carries.
pub open spec fn note_input_text(input: &NoteInput) -> NoteText {
    NoteText { title: input.title@, content: input.content@ }
}

/// What a stored note's payload opens to under the vault key.
pub open spec fn note_payload(vk: Seq<u8>, n: NoteRecord) -> Option<NoteText> {
    match unwrapped(vk, n.ek_wrapped) {
        Some(nk) => match open_blob(nk, n.payload_encrypted) {
            Some(pt) => note_text_of(pt),
            None => None,
        },
        None => None,
    }
}

/// The error of a note whose payload does not open.
pub open spec fn note_payload_error(vk: Seq<u8>, n: NoteRecord) -> CypheriaError {
    match unwrapped(vk, n.ek_wrapped) {
        Some(nk) => match open_blob(nk, n.payload_encrypted) {
            Some(pt) => CypheriaError::VaultCorrupted,
            None => open_error(n.payload_encrypted),
        },
        None => unwrap_error(vk, n.ek_wrapped),
    }
}

/// `v` shows note `n` for display: its payload opens under `vk`, and `v`
/// carries its id, times and title, without the content.
pub open spec fn note_shown(vk: Seq<u8>, n: NoteRecord, v: &NoteView) -> bool {
    note_payload(vk, n) matches Some(t) && {
        &&& v.id@ == n.id
        &&& v.created_at@ == rfc3339(n.created_at.secs, n.created_at.nanos)
        &&& v.updated_at@ == rfc3339(n.updated_at.secs, n.updated_at.nanos)
        &&& v.title@ == t.title
        &&& v.content_masked
    }
}

/// What reading note `id` gives: its id, title and content.
pub open spec fn note_read(vk: Seq<u8>, notes: Seq<NoteRecord>, id: Seq<char>, r: Result<NoteContentView, CypheriaError>) -> bool {
    match find_note(notes, id) {
        None => r matches Err(CypheriaError::NoteNotFound(s)) && s@ == id,
        Some(i) => match note_payload(vk, notes[i]) {
            Some(t) => r matches Ok(v) && v.id@ == notes[i].id && v.title@ == t.title && v.content@ == t.content,
            None => r matches Err(e) && e == note_payload_error(vk, notes[i]),
        },
    }
}

/// The ids of the notes, in order.
pub open spec fn note_ids(notes: Seq<NoteRecord>) -> Seq<Seq<char>> {
    notes.map_values(|n: NoteRecord| n.id)
}

/// The index of the first note with the given id.
pub open spec fn find_note(notes: Seq<NoteRecord>, id: Seq<char>) -> Option<int> {
    find_id(note_ids(notes), id)
}

/// `after` is `before` with one note appended: the note made from `input`
/// under id `id`, whose payload opens under `vk` to the input.
pub open spec fn note_added(
    vk: Seq<u8>,
    before: VaultDataView,
    after: VaultDataView,
    input: &NoteInput,
    id: Seq<char>,
) -> bool {
    let n = after.notes.last();
    &&& after.notes.len() == before.notes.len() + 1
    &&& after.notes.drop_last() == before.notes
    &&& after.entries == before.entries
    &&& after.settings == before.settings
    &&& n.id == id
    &&& n.created_at == n.updated_at
    &&& n.ek_wrapped.len() == 60
    &&& exists|nk: Seq<u8>| nk.len() == 32 && #[trigger] sealed(vk, nk, n.ek_wrapped)
    &&& note_payload(vk, n) == Some(note_input_text(input))
}

/// `after` is `before` with note `i` re-sealed from `input` under a new key.
pub open spec fn note_updated(
    vk: Seq<u8>,
    before: VaultDataView,
    after: VaultDataView,
    i: int,
    input: &NoteInput,
) -> bool {
    &&& 0 <= i < before.notes.len()
    &&& after.notes.len() == before.notes.len()
    &&& forall|j: int| 0 <= j < after.notes.len() && j != i ==> after.notes[j] == before.notes[j]
    &&& after.entries == before.entries
    &&& after.settings == before.settings
    &&& after.notes[i].id == before.notes[i].id
    &&& after.notes[i].created_at == before.notes[i].created_at
    &&& after.notes[i].ek_wrapped.len() == 60
    &&& exists|nk: Seq<u8>| nk.len() == 32 && #[trigger] sealed(vk, nk, after.notes[i].ek_wrapped)
    &&& note_payload(vk, after.notes[i]) == Some(note_input_text(input))
}

// ── Validation ─────────────────────────────────────────────────────────────

/// Checks a note input: a non-blank title of at most 256 bytes once trimmed,
/// and content of at most 1 MiB.
pub fn validate_note_input(input: &NoteInput) -> (r: Result<(), CypheriaError>)
    ensures
        r is Ok <==> note_input_error(input) is None,
        r matches Err(e) ==> (e matches CypheriaError::InvalidInput(s) && note_input_error(input) == Some(s@)),
{
    let trimmed_title = str_trim(input.title.as_str());
    if trimmed_title.is_empty() {
        return Err(invalid_input("Note title cannot be empty"));
    }
    if byte_len(trimmed_title) > 256 {
        return Err(invalid_input("Note title too long (max 256 chars)"));
    }
    if byte_len(input.content.as_str()) > 1_048_576 {
        return Err(invalid_input("Note content too long (max 1 MB)"));
    }
    Ok(())
}

// ── Sealing and opening payloads ───────────────────────────────────────────

struct SealedNote {
    ek_wrapped: Vec<u8>,
    payload_encrypted: Vec<u8>,
}

/// Seals a note payload under a fresh note key, wrapped under `vault_key`;
/// the note key is wiped once it is wrapped.
fn seal_note_payload(vault_key: &[u8; 32], payload: &NotePayload) -> (r: Result<
    SealedNote,
    CypheriaError,
>)
    ensures
        r matches Ok(s) ==> (exists|nk: Seq<u8>| nk.len() == 32 && sealed(vault_key@, nk, s.ek_wrapped@)
            && (exists|pt: Seq<u8>| sealed(nk, pt, s.payload_encrypted@) && note_text_of(pt) == Some(payload@))),
        r matches Err(e) ==> e is CryptoError || is_rng_error(e),
        6 * note_text_bytes(payload@) + 86 <= MAX_PLAINTEXT_LEN ==> ok_unless_machine(r),
{
    let mut nk_bytes = rng::entry_key()?;
    let mut payload_json = match encode_note_payload(payload) {
        Some(j) => j,
        None => return Err(CypheriaError::SerdeError),
    };
    let ghost pt = payload_json@;
    let payload_encrypted = aes::encrypt(&nk_bytes, payload_json.as_slice())?;
    wipe_vec(&mut payload_json);
    let ek_wrapped = aes::wrap_key(vault_key, &nk_bytes)?;
    let ghost nk = nk_bytes@;
    wipe_array(&mut nk_bytes);
    assert(sealed(nk, pt, payload_encrypted@));
    Ok(SealedNote { ek_wrapped, payload_encrypted })
}

proof fn lemma_sealed_note_opens(vk: Seq<u8>, n: NoteRecord, t: NoteText)
    requires
        exists|nk: Seq<u8>| nk.len() == 32 && sealed(vk, nk, n.ek_wrapped) && (exists|pt: Seq<u8>| sealed(nk, pt, n.payload_encrypted) && note_text_of(pt) == Some(t)),
    ensures
        note_payload(vk, n) == Some(t),
{
    let nk = choose|nk: Seq<u8>| nk.len() == 32 && sealed(vk, nk, n.ek_wrapped) && (exists|pt: Seq<u8>| sealed(nk, pt, n.payload_encrypted) && note_text_of(pt) == Some(t));
    let pt = choose|pt: Seq<u8>| sealed(nk, pt, n.payload_encrypted) && note_text_of(pt) == Some(t);
    aes::lemma_unwrap_wrapped(vk, nk, n.ek_wrapped);
    aes::lemma_open_sealed(nk, pt, n.payload_encrypted);
}

/// Opens a note's payload under the vault key; the note key is wiped before
/// the result is looked at.
fn open_note_payload(vault_key: &[u8; 32], n: &EncryptedNote) -> (r: Result<
    NotePayload,
    CypheriaError,
>)
    ensures
        r matches Ok(p) ==> note_payload(vault_key@, n@) == Some(p@),
        r matches Err(err) ==> note_payload(vault_key@, n@) is None && err == note_payload_error(vault_key@, n@),
{
    let mut nk_bytes = aes::unwrap_key(vault_key, n.ek_wrapped.as_slice())?;
    let decrypt_result = aes::decrypt(&nk_bytes, n.payload_encrypted.as_slice());
    wipe_array(&mut nk_bytes);
    let mut plaintext = decrypt_result?;
    let payload = decode_note_payload(plaintext.as_slice());
    wipe_vec(&mut plaintext);
    match payload {
        Some(p) => Ok(p),
        None => Err(CypheriaError::VaultCorrupted),
    }
}

/// The index of the first note with id `note_id`.
pub fn find_note_index(notes: &Vec<EncryptedNote>, note_id: &str) -> (r: Option<usize>)
    ensures
        r matches Some(i) ==> find_note(notes@.map_values(|n: EncryptedNote| n@), note_id@) == Some(i as int),
        r is None ==> find_note(notes@.map_values(|n: EncryptedNote| n@), note_id@) is None,
        r matches Some(i) ==> i < notes@.len(),
{
    let ghost v = note_ids(notes@.map_values(|n: EncryptedNote| n@));
    let len = notes.len();
    for i in 0..len
        invariant
            len == notes@.len(),
            v == note_ids(notes@.map_values(|n: EncryptedNote| n@)),
            find_id(v.take(i as int), note_id@) is None,
    {
        assert(v.take(i + 1).drop_last() =~= v.take(i as int));
        if str_eq(notes[i].id.as_str(), note_id) {
            assert(find_id(v.take(i + 1), note_id@) == Some(i as int));
            proof {
                lemma_find_id_prefix(v, note_id@, i + 1);
            }
            return Some(i);
        }
    }
    assert(v.take(len as int) =~= v);
    None
}

fn note_not_found(note_id: &str) -> (e: CypheriaError)
    ensures
        e matches CypheriaError::NoteNotFound(s) && s@ == note_id@,
{
    CypheriaError::NoteNotFound(string_of(note_id))
}

// ── Operations ─────────────────────────────────────────────────────────────

/// Seals a new note and appends it to the vault data; returns its id.
pub fn add_note(vault_key: &[u8; 32], vault_data: &mut VaultData, input: NoteInput) -> (r: Result<
    String,
    CypheriaError,
>)
    requires
        old(vault_data)@.wf(),
    ensures
        final(vault_data)@.wf(),
        note_input_error(&input) matches Some(m) ==> (r matches Err(CypheriaError::InvalidInput(s)) && s@ == m),
        r matches Err(e) ==> final(vault_data)@ == old(vault_data)@,
        r matches Err(e) ==> (note_input_error(&input) is Some || e is CryptoError || machine_error(e)),
        note_input_error(&input) is None && utf8_len(input.title@) <= 0x1000_0000 ==> ok_unless_machine(r),
        r matches Ok(id) ==> note_added(vault_key@, old(vault_data)@, final(vault_data)@, &input, id@),
        r matches Ok(id) ==> uuid_text_parses(id@),
{
    validate_note_input(&input)?;
    let payload = NotePayload { title: clone_string(&input.title), content: clone_string(&input.content) };
    let parts = seal_note_payload(vault_key, &payload)?;
    let id = new_uuid_string()?;
    let now = utc_now()?;
    let note = EncryptedNote {
        id: clone_string(&id),
        created_at: now,
        updated_at: now,
        ek_wrapped: parts.ek_wrapped,
        payload_encrypted: parts.payload_encrypted,
    };
    proof {
        lemma_sealed_note_opens(vault_key@, note@, payload@);
    }
    let ghost before = vault_data@;
    vault_data.notes.push(note);
    vault_data.updated_at = now;
    proof {
        assert(vault_data@.notes =~= before.notes.push(note@));
        assert(vault_data@.notes.drop_last() =~= before.notes);
        assert(vault_data@.entries =~= before.entries);
    }
    Ok(id)
}

/// Decrypts a note for the notes grid: its title, not its content.
pub fn decrypt_note(vault_key: &[u8; 32], encrypted_note: &EncryptedNote) -> (r: Result<
    NoteView,
    CypheriaError,
>)
    requires
        encrypted_note@.wf(),
    ensures
        r matches Ok(v) ==> note_shown(vault_key@, encrypted_note@, &v),
        r matches Err(e) ==> note_payload(vault_key@, encrypted_note@) is None && e == note_payload_error(vault_key@, encrypted_note@),
{
    let payload = open_note_payload(vault_key, encrypted_note)?;
    Ok(NoteView {
        id: clone_string(&encrypted_note.id),
        created_at: to_rfc3339(encrypted_note.created_at),
        updated_at: to_rfc3339(encrypted_note.updated_at),
        title: payload.title,
        content_masked: true,
    })
}

/// Decrypts the full note with id `note_id` (on an explicit request).
pub fn get_note_content(vault_key: &[u8; 32], vault_data: &VaultData, note_id: &str) -> (r: Result<
    NoteContentView,
    CypheriaError,
>)
    ensures
        note_read(vault_key@, vault_data@.notes, note_id@, r),
{
    let i = match find_note_index(&vault_data.notes, note_id) {
        Some(i) => i,
        None => return Err(note_not_found(note_id)),
    };
    proof {
        lemma_find_id(note_ids(vault_data@.notes), note_id@);
    }
    let payload = open_note_payload(vault_key, &vault_data.notes[i])?;
    Ok(NoteContentView { id: clone_string(&vault_data.notes[i].id), title: payload.title, content: payload.content })
}

/// Replaces a note's content, sealed under a fresh note key.
pub fn update_note(vault_key: &[u8; 32], vault_data: &mut VaultData, note_id: &str, input: NoteInput) -> (r: Result<
    (),
    CypheriaError,
>)
    requires
        old(vault_data)@.wf(),
    ensures
        final(vault_data)@.wf(),
        note_input_error(&input) matches Some(m) ==> (r matches Err(CypheriaError::InvalidInput(s)) && s@ == m),
        (note_input_error(&input) is None && find_note(old(vault_data)@.notes, note_id@) is None) ==> (r matches Err(CypheriaError::NoteNotFound(s)) && s@ == note_id@),
        r matches Err(e) ==> final(vault_data)@ == old(vault_data)@,
        r matches Err(e) ==> (note_input_error(&input) is Some || find_note(old(vault_data)@.notes, note_id@) is None || e is CryptoError || machine_error(e)),
        note_input_error(&input) is None && utf8_len(input.title@) <= 0x1000_0000 && find_note(old(vault_data)@.notes, note_id@) is Some ==> ok_unless_machine(r),
        r is Ok ==> (find_note(old(vault_data)@.notes, note_id@) matches Some(i) && note_updated(vault_key@, old(vault_data)@, final(vault_data)@, i, &input)),
{
    validate_note_input(&input)?;
    let i = match find_note_index(&vault_data.notes, note_id) {
        Some(i) => i,
        None => return Err(note_not_found(note_id)),
    };
    let payload = NotePayload { title: clone_string(&input.title), content: clone_string(&input.content) };
    let parts = seal_note_payload(vault_key, &payload)?;
    let now = utc_now()?;
    proof {
        lemma_find_id(note_ids(vault_data@.notes), note_id@);
        assert(vault_data@.notes[i as int].wf());
    }
    let note = EncryptedNote {
        id: clone_string(&vault_data.notes[i].id),
        created_at: vault_data.notes[i].created_at,
        updated_at: now,
        ek_wrapped: parts.ek_wrapped,
        payload_encrypted: parts.payload_encrypted,
    };
    proof {
        lemma_sealed_note_opens(vault_key@, note@, payload@);
    }
    let ghost before = vault_data@;
    vault_data.notes.set(i, note);
    vault_data.updated_at = now;
    proof {
        assert(vault_data@.notes =~= before.notes.update(i as int, note@));
        assert(vault_data@.entries =~= before.entries);
    }
    Ok(())
}

// ── Laws ───────────────────────────────────────────────────────────────────

/// A note reads back what was added: after `add_note` appended a note
/// under an id that no earlier note had, reading that id gives the title
/// and content of the input.
pub proof fn lemma_added_note_content(vk: Seq<u8>, before: VaultDataView, after: VaultDataView, input: &NoteInput, id: Seq<char>)
    requires
        note_added(vk, before, after, input, id),
        find_note(before.notes, id) is None,
    ensures
        find_note(after.notes, id) == Some(before.notes.len() as int),
        note_payload(vk, after.notes[before.notes.len() as int]) == Some(note_input_text(input)),
{
    let ids = note_ids(after.notes);
    assert(ids.drop_last() =~= note_ids(before.notes));
    assert(ids.last() == id);
}

/// A note reads back what an update wrote: after `update_note` rewrote the
/// first note with id `id`, that id still finds it, holding the input.
pub proof fn lemma_updated_note_content(vk: Seq<u8>, before: VaultDataView, after: VaultDataView, i: int, input: &NoteInput, id: Seq<char>)
    requires
        find_note(before.notes, id) == Some(i),
        note_updated(vk, before, after, i, input),
    ensures
        find_note(after.notes, id) == Some(i),
        note_payload(vk, after.notes[i]) == Some(note_input_text(input)),
{
    lemma_find_id(note_ids(before.notes), id);
    let ids = note_ids(after.notes);
    assert(ids.take(i + 1).drop_last() =~= note_ids(before.notes).take(i));
    assert(find_id(note_ids(before.notes).take(i), id) is None) by {
        lemma_find_id(note_ids(before.notes).take(i), id);
        if find_id(note_ids(before.notes).take(i), id) is Some {
            let k = find_id(note_ids(before.notes).take(i), id)->0;
            assert(note_ids(before.notes)[k] == id);
        }
    }
    assert(find_id(ids.take(i + 1), id) == Some(i));
    lemma_find_id_prefix(ids, id, i + 1);
}

} // verus!
