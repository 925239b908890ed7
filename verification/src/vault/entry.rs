//! Entries: add, decrypt for display, read the password, update.
//!
//!   - `decrypt_entry` never returns the password.
//!   - `get_entry_password` is the only operation that returns a password.
//!   - `update_entry` seals the payload under a fresh entry key every time.
//!   - Entry keys are wiped right after use.
use vstd::prelude::*;
use crate::crypto::aes::{self, open_blob, open_error, sealed, unwrap_error, unwrapped, MAX_PLAINTEXT_LEN};
use crate::crypto::keys::{wipe_array, wipe_vec};
use crate::crypto::rng;
use crate::error::{invalid_input, is_rng_error, ok_unless_machine, CypheriaError};
use crate::models::entry::{EntryInput, EntryView};
use crate::text::{byte_len, chars_of, clone_string, find_id, lemma_find_id, lemma_find_id_prefix, str_eq, str_trim, string_of, trim, utf8_len};
use crate::time::{rfc3339, to_rfc3339, utc_now, Timestamp};
use crate::vault::format::{EncryptedEntry, EntryPayload, EntryRecord, VaultData, VaultDataView};
use crate::vault::payload::{decode_entry_payload, encode_entry_payload, entry_text_bytes, entry_text_of, EntryText};
use crate::commands::ids::{new_uuid_string, uuid_text_parses};

verus! {

broadcast use vstd::string::group_string_axioms;

// ── Specifications ─────────────────────────────────────────────────────────

pub open spec fn is_ascii_hexdigit(c: char) -> bool {
    ('0' <= c <= '9') || ('a' <= c <= 'f') || ('A' <= c <= 'F')
}

/// An accepted entry color: empty, or `#` and six hexadecimal digits.
pub open spec fn valid_color(c: Seq<char>) -> bool {
    c.len() == 0 || (utf8_len(c) == 7 && c[0] == '#' && forall|i: int|
        1 <= i < c.len() ==> is_ascii_hexdigit(#[trigger] c[i]))
}

/// The message of the first rule that an entry's text breaks. Lengths are
/// counted in UTF-8 bytes.
pub open spec fn entry_text_error(
    name: Seq<char>,
    username: Seq<char>,
    password: Seq<char>,
    website: Seq<char>,
    notes: Seq<char>,
    color: Option<Seq<char>>,
) -> Option<Seq<char>> {
    if trim(name).len() == 0 {
        Some("Entry name cannot be empty"@)
    } else if utf8_len(name) > 256 {
        Some("Entry name too long (max 256 chars)"@)
    } else if utf8_len(username) > 512 {
        Some("Username too long (max 512 chars)"@)
    } else if utf8_len(password) > 4096 {
        Some("Password too long (max 4096 chars)"@)
    } else if utf8_len(website) > 2048 {
        Some("Website URL too long (max 2048 chars)"@)
    } else if utf8_len(notes) > 65536 {
        Some("Notes too long (max 64 KB)"@)
    } else if color matches Some(c) && !valid_color(c) {
        Some("Color must be a valid hex color (e.g. #8b5cf6)"@)
    } else {
        None
    }
}

/// The characters of an optional string.
pub open spec fn opt_chars(o: Option<String>) -> Option<Seq<char>> {
    match o {
        Some(s) => Some(s@),
        None => None,
    }
}

/// The message of the first rule that an entry input breaks.
pub open spec fn entry_input_error(input: &EntryInput) -> Option<Seq<char>> {
    entry_text_error(input.name@, input.username@, input.password@, input.website@, input.notes@, opt_chars(input.color))
}

/// The credentials that an entry input carries.
pub open spec fn input_text(input: &EntryInput) -> EntryText {
    EntryText {
        name: input.name@,
        username: input.username@,
        password: input.password@,
        website: input.website@,
        notes: input.notes@,
    }
}

/// The characters of an optional string, empty when absent.
pub open spec fn text_or_empty(o: Option<String>) -> Seq<char> {
    match o {
        Some(s) => s@,
        None => Seq::empty(),
    }
}

/// The characters of an optional string, `old` when absent.
pub open spec fn text_or(o: Option<String>, old: Seq<char>) -> Seq<char> {
    match o {
        Some(s) => s@,
        None => old,
    }
}

/// What a stored entry's payload opens to under the vault key: its entry
/// key unwraps, the payload opens under it, and the plaintext is an entry.
pub open spec fn entry_payload(vk: Seq<u8>, e: EntryRecord) -> Option<EntryText> {
    match unwrapped(vk, e.ek_wrapped) {
        Some(ek) => match open_blob(ek, e.payload_encrypted) {
            Some(pt) => entry_text_of(pt),
            None => None,
        },
        None => None,
    }
}

/// The error of an entry whose payload does not open.
pub open spec fn entry_payload_error(vk: Seq<u8>, e: EntryRecord) -> CypheriaError {
    match unwrapped(vk, e.ek_wrapped) {
        Some(ek) => match open_blob(ek, e.payload_encrypted) {
            Some(pt) => CypheriaError::VaultCorrupted,
            None => open_error(e.payload_encrypted),
        },
        None => unwrap_error(vk, e.ek_wrapped),
    }
}

/// `v` shows entry `e` for display: its payload opens under `vk`, and `v`
/// carries the entry's fields and credentials, without the password.
pub open spec fn entry_shown(vk: Seq<u8>, e: EntryRecord, v: &EntryView) -> bool {
    entry_payload(vk, e) matches Some(t) && {
        &&& v.id@ == e.id
        &&& v.created_at@ == rfc3339(e.created_at.secs, e.created_at.nanos)
        &&& v.updated_at@ == rfc3339(e.updated_at.secs, e.updated_at.nanos)
        &&& v.is_favorite == e.is_favorite
        &&& v.category@ == e.category
        &&& v.color@ == e.color
        &&& v.emoji@ == e.emoji
        &&& v.name@ == t.name
        &&& v.username@ == t.username
        &&& v.website@ == t.website
        &&& v.notes@ == t.notes
        &&& v.password_masked
    }
}

/// The ids of the entries, in order.
pub open spec fn entry_ids(entries: Seq<EntryRecord>) -> Seq<Seq<char>> {
    entries.map_values(|e: EntryRecord| e.id)
}

/// The index of the first entry with the given id.
pub open spec fn find_entry(entries: Seq<EntryRecord>, id: Seq<char>) -> Option<int> {
    find_id(entry_ids(entries), id)
}

/// `after` is `before` with one entry appended: the entry made from `input`
/// under id `id`, whose 32-byte entry key is sealed under `vk` (60 bytes)
/// and whose payload opens under `vk` to the input's credentials.
pub open spec fn entry_added(
    vk: Seq<u8>,
    before: VaultDataView,
    after: VaultDataView,
    input: &EntryInput,
    id: Seq<char>,
) -> bool {
    let e = after.entries.last();
    &&& after.entries.len() == before.entries.len() + 1
    &&& after.entries.drop_last() == before.entries
    &&& after.notes == before.notes
    &&& after.settings == before.settings
    &&& e.id == id
    &&& e.created_at == e.updated_at
    &&& e.is_favorite == (match input.is_favorite {
        Some(b) => b,
        None => false,
    })
    &&& e.category == text_or_empty(input.category)
    &&& e.color == text_or_empty(input.color)
    &&& e.emoji == text_or_empty(input.emoji)
    &&& e.ek_wrapped.len() == 60
    &&& exists|ek: Seq<u8>| ek.len() == 32 && #[trigger] sealed(vk, ek, e.ek_wrapped)
    &&& entry_payload(vk, e) == Some(input_text(input))
}

/// `after` is `before` with entry `i` rewritten: a new payload under a new
/// key that opens to `text`, the given options applied and the others kept.
pub open spec fn entry_rewritten(
    vk: Seq<u8>,
    before: VaultDataView,
    after: VaultDataView,
    i: int,
    text: EntryText,
    is_favorite: Option<bool>,
    category: Option<String>,
    color: Option<String>,
    emoji: Option<String>,
) -> bool {
    let old_e = before.entries[i];
    let e = after.entries[i];
    &&& 0 <= i < before.entries.len()
    &&& after.entries.len() == before.entries.len()
    &&& forall|j: int| 0 <= j < after.entries.len() && j != i ==> after.entries[j] == before.entries[j]
    &&& after.notes == before.notes
    &&& after.settings == before.settings
    &&& e.id == old_e.id
    &&& e.created_at == old_e.created_at
    &&& e.is_favorite == (match is_favorite {
        Some(b) => b,
        None => old_e.is_favorite,
    })
    &&& e.category == text_or(category, old_e.category)
    &&& e.color == text_or(color, old_e.color)
    &&& e.emoji == text_or(emoji, old_e.emoji)
    &&& e.ek_wrapped.len() == 60
    &&& exists|ek: Seq<u8>| ek.len() == 32 && #[trigger] sealed(vk, ek, e.ek_wrapped)
    &&& entry_payload(vk, e) == Some(text)
}

/// `after` is `before` with entry `i` replaced by its update from `input`:
/// a new payload under a new key, options applied where given.
pub open spec fn entry_updated(
    vk: Seq<u8>,
    before: VaultDataView,
    after: VaultDataView,
    i: int,
    input: &EntryInput,
) -> bool {
    entry_rewritten(vk, before, after, i, input_text(input), input.is_favorite, input.category, input.color, input.emoji)
}

// ── Validation ─────────────────────────────────────────────────────────────

fn is_hexdigit(c: char) -> (r: bool)
    ensures
        r == is_ascii_hexdigit(c),
{
    ('0' <= c && c <= '9') || ('a' <= c && c <= 'f') || ('A' <= c && c <= 'F')
}

fn is_valid_color(color: &str) -> (r: bool)
    ensures
        r == valid_color(color@),
{
    if color.is_empty() {
        return true;
    }
    if byte_len(color) != 7 {
        return false;
    }
    let cs = chars_of(color);
    if cs[0] != '#' {
        return false;
    }
    let n = cs.len();
    for i in 1..n
        invariant
            n == cs@.len(),
            cs@ == color@,
            n > 0,
            cs@[0] == '#',
            utf8_len(color@) == 7,
            forall|j: int| 1 <= j < i ==> is_ascii_hexdigit(#[trigger] cs@[j]),
    {
        if !is_hexdigit(cs[i]) {
            return false;
        }
    }
    true
}

/// Checks an entry input against the limits on each field.
pub fn validate_entry_input(input: &EntryInput) -> (r: Result<(), CypheriaError>)
    ensures
        r is Ok <==> entry_input_error(input) is None,
        r matches Err(e) ==> (e matches CypheriaError::InvalidInput(s) && entry_input_error(input)
            == Some(s@)),
{
    if str_trim(input.name.as_str()).is_empty() {
        return Err(invalid_input("Entry name cannot be empty"));
    }
    if byte_len(input.name.as_str()) > 256 {
        return Err(invalid_input("Entry name too long (max 256 chars)"));
    }
    if byte_len(input.username.as_str()) > 512 {
        return Err(invalid_input("Username too long (max 512 chars)"));
    }
    if byte_len(input.password.as_str()) > 4096 {
        return Err(invalid_input("Password too long (max 4096 chars)"));
    }
    if byte_len(input.website.as_str()) > 2048 {
        return Err(invalid_input("Website URL too long (max 2048 chars)"));
    }
    if byte_len(input.notes.as_str()) > 65536 {
        return Err(invalid_input("Notes too long (max 64 KB)"));
    }
    if let Some(color) = &input.color {
        if !is_valid_color(color.as_str()) {
            return Err(invalid_input("Color must be a valid hex color (e.g. #8b5cf6)"));
        }
    }
    Ok(())
}

// ── Sealing and opening payloads ───────────────────────────────────────────

/// The sealed parts of an entry: its wrapped key and its sealed payload.
struct SealedPayload {
    ek_wrapped: Vec<u8>,
    payload_encrypted: Vec<u8>,
}

/// Seals an entry payload under a fresh entry key, wrapped under `vault_key`.
fn seal_entry_payload(vault_key: &[u8; 32], payload: &EntryPayload) -> (r: Result<
    SealedPayload,
    CypheriaError,
>)
    ensures
        r matches Ok(s) ==> (exists|ek: Seq<u8>| ek.len() == 32 && sealed(vault_key@, ek, s.ek_wrapped@)
            && (exists|pt: Seq<u8>| sealed(ek, pt, s.payload_encrypted@) && entry_text_of(pt) == Some(payload@))),
        r matches Err(e) ==> e is CryptoError || is_rng_error(e),
        6 * entry_text_bytes(payload@) + 224 <= MAX_PLAINTEXT_LEN ==> ok_unless_machine(r),
{
    let mut ek_bytes = rng::entry_key()?;
    let mut payload_json = match encode_entry_payload(payload) {
        Some(j) => j,
        None => return Err(CypheriaError::SerdeError),
    };
    let ghost pt = payload_json@;
    let payload_encrypted = aes::encrypt(&ek_bytes, payload_json.as_slice())?;
    wipe_vec(&mut payload_json);
    let ek_wrapped = aes::wrap_key(vault_key, &ek_bytes)?;
    let ghost ek = ek_bytes@;
    wipe_array(&mut ek_bytes);
    assert(sealed(ek, pt, payload_encrypted@));
    Ok(SealedPayload { ek_wrapped, payload_encrypted })
}

proof fn lemma_sealed_entry_opens(vk: Seq<u8>, e: EntryRecord, ek: Seq<u8>, pt: Seq<u8>, t: EntryText)
    requires
        ek.len() == 32,
        sealed(vk, ek, e.ek_wrapped),
        sealed(ek, pt, e.payload_encrypted),
        entry_text_of(pt) == Some(t),
    ensures
        entry_payload(vk, e) == Some(t),
{
    aes::lemma_unwrap_wrapped(vk, ek, e.ek_wrapped);
    aes::lemma_open_sealed(ek, pt, e.payload_encrypted);
}

/// A payload sealed by `seal_entry_payload` opens to what was sealed.
proof fn lemma_sealed_parts_open(vk: Seq<u8>, e: EntryRecord, t: EntryText)
    requires
        exists|ek: Seq<u8>| ek.len() == 32 && sealed(vk, ek, e.ek_wrapped) && (exists|pt: Seq<u8>| sealed(ek, pt, e.payload_encrypted) && entry_text_of(pt) == Some(t)),
    ensures
        entry_payload(vk, e) == Some(t),
{
    let ek = choose|ek: Seq<u8>| ek.len() == 32 && sealed(vk, ek, e.ek_wrapped) && (exists|pt: Seq<u8>| sealed(ek, pt, e.payload_encrypted) && entry_text_of(pt) == Some(t));
    let pt = choose|pt: Seq<u8>| sealed(ek, pt, e.payload_encrypted) && entry_text_of(pt) == Some(t);
    lemma_sealed_entry_opens(vk, e, ek, pt, t);
}

/// The stored entry `old` with a new sealed payload and the options given.
fn updated_record(
    old: &EncryptedEntry,
    is_favorite: Option<bool>,
    category: Option<String>,
    color: Option<String>,
    emoji: Option<String>,
    parts: SealedPayload,
    now: Timestamp,
) -> (e: EncryptedEntry)
    requires
        old@.wf(),
        now.valid(),
    ensures
        e@.wf(),
        e.id@ == old.id@,
        e.created_at == old.created_at,
        e.updated_at == now,
        e.is_favorite == (match is_favorite {
            Some(b) => b,
            None => old.is_favorite,
        }),
        e.category@ == text_or(category, old.category@),
        e.color@ == text_or(color, old.color@),
        e.emoji@ == text_or(emoji, old.emoji@),
        e.ek_wrapped@ == parts.ek_wrapped@,
        e.payload_encrypted@ == parts.payload_encrypted@,
{
    EncryptedEntry {
        id: clone_string(&old.id),
        created_at: old.created_at,
        updated_at: now,
        is_favorite: match is_favorite {
            Some(b) => b,
            None => old.is_favorite,
        },
        category: text_or_keep(category, &old.category),
        color: text_or_keep(color, &old.color),
        emoji: text_or_keep(emoji, &old.emoji),
        ek_wrapped: parts.ek_wrapped,
        payload_encrypted: parts.payload_encrypted,
    }
}

/// Opens an entry's payload under the vault key; the entry key is wiped
/// before the result is looked at.
fn open_entry_payload(vault_key: &[u8; 32], e: &EncryptedEntry) -> (r: Result<
    EntryPayload,
    CypheriaError,
>)
    ensures
        r matches Ok(p) ==> entry_payload(vault_key@, e@) == Some(p@),
        r matches Err(err) ==> entry_payload(vault_key@, e@) is None && err == entry_payload_error(vault_key@, e@),
{
    let mut ek_bytes = aes::unwrap_key(vault_key, e.ek_wrapped.as_slice())?;
    let ghost ek = ek_bytes@;
    let decrypt_result = aes::decrypt(&ek_bytes, e.payload_encrypted.as_slice());
    wipe_array(&mut ek_bytes);
    let mut plaintext = decrypt_result?;
    let payload = decode_entry_payload(plaintext.as_slice());
    wipe_vec(&mut plaintext);
    match payload {
        Some(p) => Ok(p),
        None => Err(CypheriaError::VaultCorrupted),
    }
}

fn text_or_default(o: Option<String>) -> (r: String)
    ensures
        r@ == text_or_empty(o),
{
    match o {
        Some(s) => s,
        None => String::new(),
    }
}

fn text_or_keep(o: Option<String>, old: &String) -> (r: String)
    ensures
        r@ == text_or(o, old@),
{
    match o {
        Some(s) => s,
        None => clone_string(old),
    }
}

/// The index of the first entry with id `entry_id`.
pub fn find_entry_index(entries: &Vec<EncryptedEntry>, entry_id: &str) -> (r: Option<usize>)
    ensures
        r matches Some(i) ==> find_entry(entries@.map_values(|e: EncryptedEntry| e@), entry_id@) == Some(i as int),
        r is None ==> find_entry(entries@.map_values(|e: EncryptedEntry| e@), entry_id@) is None,
        r matches Some(i) ==> i < entries@.len(),
{
    let ghost v = entry_ids(entries@.map_values(|e: EncryptedEntry| e@));
    let n = entries.len();
    for i in 0..n
        invariant
            n == entries@.len(),
            v == entry_ids(entries@.map_values(|e: EncryptedEntry| e@)),
            find_id(v.take(i as int), entry_id@) is None,
    {
        assert(v.take(i + 1).drop_last() =~= v.take(i as int));
        if str_eq(entries[i].id.as_str(), entry_id) {
            assert(find_id(v.take(i + 1), entry_id@) == Some(i as int));
            proof {
                lemma_find_id_prefix(v, entry_id@, i + 1);
            }
            return Some(i);
        }
    }
    assert(v.take(n as int) =~= v);
    None
}

fn entry_not_found(entry_id: &str) -> (e: CypheriaError)
    ensures
        e matches CypheriaError::EntryNotFound(s) && s@ == entry_id@,
{
    CypheriaError::EntryNotFound(string_of(entry_id))
}

// ── Operations ─────────────────────────────────────────────────────────────

/// Seals a new entry and appends it to the vault data.
///
/// The input is validated; the credentials are sealed as one JSON payload
/// under a fresh random entry key, which is wrapped under the vault key and
/// then wiped. Returns the new entry's id.
pub fn add_entry(vault_key: &[u8; 32], vault_data: &mut VaultData, input: EntryInput) -> (r: Result<
    String,
    CypheriaError,
>)
    requires
        old(vault_data)@.wf(),
    ensures
        final(vault_data)@.wf(),
        entry_input_error(&input) matches Some(m) ==> (r matches Err(CypheriaError::InvalidInput(s)) && s@ == m),
        r matches Err(e) ==> final(vault_data)@ == old(vault_data)@,
        r is Ok ==> entry_input_error(&input) is None,
        entry_input_error(&input) is None ==> ok_unless_machine(r),
        r matches Ok(id) ==> entry_added(vault_key@, old(vault_data)@, final(vault_data)@, &input, id@),
        r matches Ok(id) ==> uuid_text_parses(id@),
{
    validate_entry_input(&input)?;
    let payload = EntryPayload {
        name: clone_string(&input.name),
        username: clone_string(&input.username),
        password: clone_string(&input.password),
        website: clone_string(&input.website),
        notes: clone_string(&input.notes),
    };
    let sealed_parts = seal_entry_payload(vault_key, &payload)?;
    let id = new_uuid_string()?;
    let now = utc_now()?;
    let entry = EncryptedEntry {
        id: clone_string(&id),
        created_at: now,
        updated_at: now,
        is_favorite: match input.is_favorite {
            Some(b) => b,
            None => false,
        },
        category: text_or_default(input.category),
        color: text_or_default(input.color),
        emoji: text_or_default(input.emoji),
        ek_wrapped: sealed_parts.ek_wrapped,
        payload_encrypted: sealed_parts.payload_encrypted,
    };
    proof {
        lemma_sealed_parts_open(vault_key@, entry@, payload@);
    }
    let ghost before = vault_data@;
    vault_data.entries.push(entry);
    vault_data.updated_at = now;
    proof {
        assert(vault_data@.entries =~= before.entries.push(entry@));
        assert(vault_data@.entries.drop_last() =~= before.entries);
        assert(vault_data@.notes =~= before.notes);
    }
    Ok(id)
}

/// Decrypts one entry for display. The password is left out of the view:
/// it is fetched only by `get_entry_password`.
pub fn decrypt_entry(vault_key: &[u8; 32], encrypted_entry: &EncryptedEntry) -> (r: Result<
    EntryView,
    CypheriaError,
>)
    requires
        encrypted_entry@.wf(),
    ensures
        r matches Ok(v) ==> entry_shown(vault_key@, encrypted_entry@, &v),
        r matches Err(e) ==> entry_payload(vault_key@, encrypted_entry@) is None && e == entry_payload_error(vault_key@, encrypted_entry@),
{
    let payload = open_entry_payload(vault_key, encrypted_entry)?;
    Ok(EntryView {
        id: clone_string(&encrypted_entry.id),
        created_at: to_rfc3339(encrypted_entry.created_at),
        updated_at: to_rfc3339(encrypted_entry.updated_at),
        is_favorite: encrypted_entry.is_favorite,
        category: clone_string(&encrypted_entry.category),
        color: clone_string(&encrypted_entry.color),
        emoji: clone_string(&encrypted_entry.emoji),
        name: payload.name,
        username: payload.username,
        website: payload.website,
        notes: payload.notes,
        password_masked: true,
    })
}

/// Decrypts only the password of the entry with id `entry_id`. This is the
/// one operation that returns a password.
pub fn get_entry_password(vault_key: &[u8; 32], vault_data: &VaultData, entry_id: &str) -> (r: Result<
    String,
    CypheriaError,
>)
    ensures
        match find_entry(vault_data@.entries, entry_id@) {
            None => r matches Err(CypheriaError::EntryNotFound(s)) && s@ == entry_id@,
            Some(i) => match entry_payload(vault_key@, vault_data@.entries[i]) {
                Some(t) => r matches Ok(p) && p@ == t.password,
                None => r matches Err(e) && e == entry_payload_error(vault_key@, vault_data@.entries[i]),
            },
        },
{
    let i = match find_entry_index(&vault_data.entries, entry_id) {
        Some(i) => i,
        None => return Err(entry_not_found(entry_id)),
    };
    proof {
        lemma_find_id(entry_ids(vault_data@.entries), entry_id@);
    }
    let payload = open_entry_payload(vault_key, &vault_data.entries[i])?;
    Ok(payload.password)
}

/// Replaces an entry's content. The payload is sealed under a fresh entry
/// key (so an old copy of the vault file does not share a key with the new
/// one); the options given in `input` replace the stored ones.
pub fn update_entry(vault_key: &[u8; 32], vault_data: &mut VaultData, entry_id: &str, input: EntryInput) -> (r: Result<
    (),
    CypheriaError,
>)
    requires
        old(vault_data)@.wf(),
    ensures
        final(vault_data)@.wf(),
        entry_input_error(&input) matches Some(m) ==> (r matches Err(CypheriaError::InvalidInput(s)) && s@ == m),
        (entry_input_error(&input) is None && find_entry(old(vault_data)@.entries, entry_id@) is None) ==> (r matches Err(CypheriaError::EntryNotFound(s)) && s@ == entry_id@),
        r matches Err(e) ==> final(vault_data)@ == old(vault_data)@,
        r is Ok ==> (entry_input_error(&input) is None && find_entry(old(vault_data)@.entries, entry_id@) is Some),
        (entry_input_error(&input) is None && find_entry(old(vault_data)@.entries, entry_id@) is Some) ==> ok_unless_machine(r),
        r is Ok ==> (find_entry(old(vault_data)@.entries, entry_id@) matches Some(i) && entry_updated(vault_key@, old(vault_data)@, final(vault_data)@, i, &input)),
{
    validate_entry_input(&input)?;
    let i = match find_entry_index(&vault_data.entries, entry_id) {
        Some(i) => i,
        None => return Err(entry_not_found(entry_id)),
    };
    let payload = EntryPayload {
        name: clone_string(&input.name),
        username: clone_string(&input.username),
        password: clone_string(&input.password),
        website: clone_string(&input.website),
        notes: clone_string(&input.notes),
    };
    let sealed_parts = seal_entry_payload(vault_key, &payload)?;
    let now = utc_now()?;
    proof {
        lemma_find_id(entry_ids(vault_data@.entries), entry_id@);
        assert(vault_data@.entries[i as int].wf());
    }
    let entry = updated_record(
        &vault_data.entries[i],
        input.is_favorite,
        input.category,
        input.color,
        input.emoji,
        sealed_parts,
        now,
    );
    proof {
        lemma_sealed_parts_open(vault_key@, entry@, payload@);
    }
    let ghost before = vault_data@;
    vault_data.entries.set(i, entry);
    vault_data.updated_at = now;
    proof {
        assert(vault_data@.entries =~= before.entries.update(i as int, entry@));
        assert(vault_data@.notes =~= before.notes);
    }
    Ok(())
}

// ── Laws ───────────────────────────────────────────────────────────────────

/// A password reads back what was added: after `add_entry` appended an
/// entry under an id that no earlier entry had, reading the password of
/// that id gives the password of the input.
pub proof fn lemma_added_entry_password(vk: Seq<u8>, before: VaultDataView, after: VaultDataView, input: &EntryInput, id: Seq<char>)
    requires
        entry_added(vk, before, after, input, id),
        find_entry(before.entries, id) is None,
    ensures
        find_entry(after.entries, id) == Some(before.entries.len() as int),
        entry_payload(vk, after.entries[before.entries.len() as int]) == Some(input_text(input)),
        entry_payload(vk, after.entries[before.entries.len() as int])->0.password == input.password@,
{
    let ids = entry_ids(after.entries);
    assert(ids.drop_last() =~= entry_ids(before.entries));
    assert(ids.last() == id);
}

/// A password reads back what an update wrote: after `update_entry`
/// rewrote the first entry with id `id`, that id still finds it, and its
/// password is the one of the input.
pub proof fn lemma_updated_entry_password(vk: Seq<u8>, before: VaultDataView, after: VaultDataView, i: int, input: &EntryInput, id: Seq<char>)
    requires
        find_entry(before.entries, id) == Some(i),
        entry_updated(vk, before, after, i, input),
    ensures
        find_entry(after.entries, id) == Some(i),
        entry_payload(vk, after.entries[i])->0.password == input.password@,
{
    lemma_find_id(entry_ids(before.entries), id);
    let ids = entry_ids(after.entries);
    assert(ids.take(i + 1).drop_last() =~= entry_ids(before.entries).take(i));
    assert(find_id(entry_ids(before.entries).take(i), id) is None) by {
        lemma_find_id(entry_ids(before.entries).take(i), id);
        if find_id(entry_ids(before.entries).take(i), id) is Some {
            let k = find_id(entry_ids(before.entries).take(i), id)->0;
            assert(entry_ids(before.entries)[k] == id);
        }
    }
    assert(find_id(ids.take(i + 1), id) == Some(i));
    lemma_find_id_prefix(ids, id, i + 1);
}

} // verus!
