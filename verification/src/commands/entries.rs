//! The entry commands: list, reveal, add, update, delete, mark as favorite,
//! and score the passwords.
//!
//! Each command validates its input first and then goes through the
//! session's access check (`SessionManager::access`): vault data is reached only
//! while the session is unlocked. `now` is the monotonic clock in
//! nanoseconds that the access check compares lockouts with; `unix_now` is the wall
//! clock in seconds that the reveal rate limit uses. A command that changes
//! the vault leaves the writing of the file to its caller.
use vstd::prelude::*;
use vstd::slice::slice_subrange;
use vstd::utf8::encode_utf8;
use crate::commands::ids::{uuid_text_parses, validate_uuid};
use crate::commands::reveal_tokens::RevealStore;
use crate::crypto::kdf::{derive_subkey, subkey};
use crate::crypto::keys::wipe_array;
use crate::crypto::mac::{hmac_sha256, hmac_sha256_tag};
use crate::error::{invalid_input, machine_failed, ok_unless_machine, CypheriaError};
use crate::models::entry::{EntryInput, EntryScoreView, EntryView};
use crate::session::manager::{refusal, refused, reveal_limit, session_data, session_vk, only_data_changed, SessionManager, SessionState};
use crate::text::{byte_len, is_empty_text, is_hex_char, lemma_hex_lower, chars_of, clone_string, hex_encode, hex_lower, string_of, utf8_bytes, utf8_len};
use crate::time::{days_between, days_since, utc_now, Timestamp};
use crate::vault::entry::{entry_added, entry_input_error, entry_payload, entry_payload_error, entry_rewritten, entry_shown, entry_text_error, entry_updated, find_entry, opt_chars};
use crate::vault::payload::EntryText;
use crate::vault::format::{EncryptedEntry, EntryRecord, VaultData, VaultDataView};

verus! {

broadcast use vstd::string::group_string_axioms;

// ── Specifications ─────────────────────────────────────────────────────────

/// `r` is what listing `entries` gives: every entry shown, in order; or
/// the error of the first entry that does not open.
pub open spec fn entries_listed(vk: Seq<u8>, entries: Seq<EntryRecord>, r: Result<Vec<EntryView>, CypheriaError>) -> bool {
    match r {
        Ok(vs) => vs@.len() == entries.len() && forall|i: int| 0 <= i < entries.len() ==> entry_shown(vk, entries[i], &#[trigger] vs@[i]),
        Err(e) => exists|i: int|
            0 <= i < entries.len() && (forall|j: int| 0 <= j < i ==> (#[trigger] entry_payload(vk, entries[j])) is Some)
                && entry_payload(vk, #[trigger] entries[i]) is None && e == entry_payload_error(vk, entries[i]),
    }
}

/// What reading the password of entry `id` gives.
pub open spec fn password_read(vk: Seq<u8>, entries: Seq<EntryRecord>, id: Seq<char>, r: Result<String, CypheriaError>) -> bool {
    match find_entry(entries, id) {
        None => r matches Err(CypheriaError::EntryNotFound(s)) && s@ == id,
        Some(i) => match entry_payload(vk, entries[i]) {
            Some(t) => r matches Ok(p) && p@ == t.password,
            None => r matches Err(e) && e == entry_payload_error(vk, entries[i]),
        },
    }
}

/// The entries without those whose id is `id`.
pub open spec fn entries_without(entries: Seq<EntryRecord>, id: Seq<char>) -> Seq<EntryRecord> {
    entries.filter(|e: EntryRecord| e.id != id)
}

pub open spec fn is_ascii_upper(c: char) -> bool {
    'A' <= c <= 'Z'
}

pub open spec fn is_ascii_lower(c: char) -> bool {
    'a' <= c <= 'z'
}

pub open spec fn is_ascii_digit(c: char) -> bool {
    '0' <= c <= '9'
}

/// Whether `char::is_alphanumeric` holds of `c` (the Unicode `Alphabetic`
/// property or a numeric general category).
pub uninterp spec fn unicode_alphanumeric(c: char) -> bool;

pub open spec fn has_upper(p: Seq<char>) -> bool {
    exists|i: int| 0 <= i < p.len() && is_ascii_upper(#[trigger] p[i])
}

pub open spec fn has_lower(p: Seq<char>) -> bool {
    exists|i: int| 0 <= i < p.len() && is_ascii_lower(#[trigger] p[i])
}

pub open spec fn has_digit(p: Seq<char>) -> bool {
    exists|i: int| 0 <= i < p.len() && is_ascii_digit(#[trigger] p[i])
}

/// A symbol: an ASCII character that is not a letter or digit, or a
/// non-ASCII character that is not alphanumeric.
pub open spec fn is_symbol(c: char) -> bool {
    if (c as u32) < 128 {
        !(is_ascii_upper(c) || is_ascii_lower(c) || is_ascii_digit(c))
    } else {
        !unicode_alphanumeric(c)
    }
}

pub open spec fn has_symbol(p: Seq<char>) -> bool {
    exists|i: int| 0 <= i < p.len() && is_symbol(#[trigger] p[i])
}

/// Which characters count as symbols: an ASCII character exactly when it
/// is not an ASCII letter or digit (so space and punctuation do), and any
/// other character exactly when `char::is_alphanumeric` is false for it.
pub proof fn lemma_symbols(c: char)
    ensures
        (c as u32) < 128 ==> (is_symbol(c) <==> !(('a' <= c && c <= 'z') || ('A' <= c && c <= 'Z') || ('0' <= c && c <= '9'))),
        (c as u32) >= 128 ==> (is_symbol(c) <==> !unicode_alphanumeric(c)),
        is_symbol(' ') && is_symbol('!') && is_symbol('-') && !is_symbol('a') && !is_symbol('Z') && !is_symbol('7'),
{
}

/// The symbol bonus: a password that holds an ASCII character other than a
/// letter or digit (a space, say) has a symbol, so its score is at least
/// 10.
pub proof fn lemma_symbol_bonus(p: Seq<char>, i: int)
    requires
        0 <= i < p.len(),
        (p[i] as u32) < 128,
        !(('a' <= p[i] && p[i] <= 'z') || ('A' <= p[i] && p[i] <= 'Z') || ('0' <= p[i] && p[i] <= '9')),
    ensures
        has_symbol(p),
        pwd_score(p) >= 10,
{
    assert(is_symbol(p[i]));
}

/// The password score, 0 to 100: 0 for an empty password; otherwise 20
/// for at least 8 bytes, 10 more each for at least 12, 16 and 24 bytes,
/// 15 for an upper-case and 15 for a lower-case ASCII letter, 10 for an
/// ASCII digit and 10 for a symbol (a character that is not alphanumeric).
pub open spec fn pwd_score(p: Seq<char>) -> u8 {
    if p.len() == 0 {
        0
    } else {
        let n = utf8_len(p);
        let s = (if n >= 8 { 20int } else { 0 }) + (if n >= 12 { 10int } else { 0 }) + (if n >= 16 { 10int } else { 0 }) + (
        if n >= 24 { 10int } else { 0 }) + (if has_upper(p) { 15int } else { 0 }) + (if has_lower(p) { 15int } else { 0 }) + (
        if has_digit(p) { 10int } else { 0 }) + (if has_symbol(p) { 10int } else { 0 });
        if s > 100 {
            100
        } else {
            s as u8
        }
    }
}

/// The bytes `PWD_DUP_DETECTION`.
pub open spec fn dup_domain() -> Seq<u8> {
    encode_utf8("PWD_DUP_DETECTION"@)
}

/// The duplicate tag of a password: the first 4 bytes of its HMAC-SHA256
/// under the vault key's duplicate-detection subkey, in hexadecimal. Equal
/// passwords in one vault have equal tags; 32 bits are too few to recover
/// a password from.
pub open spec fn dup_tag_of(vk: Seq<u8>, pwd: Seq<char>) -> Seq<char> {
    hex_lower(hmac_sha256(subkey(vk, dup_domain()), encode_utf8(pwd)).take(4))
}

/// `v` scores entry `i` of `entries` at time `now`. The password is read by
/// the entry's id; an entry whose password cannot be read scores zero with
/// no password.
pub open spec fn entry_scored(vk: Seq<u8>, entries: Seq<EntryRecord>, i: int, now: Timestamp, v: &EntryScoreView) -> bool {
    let e = entries[i];
    &&& v.id@ == e.id
    &&& match find_entry(entries, e.id) {
        Some(k) if entry_payload(vk, entries[k]) is Some => {
            let p = entry_payload(vk, entries[k])->0.password;
            &&& v.score == pwd_score(p)
            &&& v.has_password == (p.len() > 0)
            &&& v.dup_tag@ == dup_tag_of(vk, p)
            &&& v.dup_tag@.len() == 8
            &&& forall|j: int| 0 <= j < 8 ==> is_hex_char(#[trigger] v.dup_tag@[j])
            &&& v.days_since_update == days_between(now, e.updated_at)
        },
        _ => {
            &&& v.score == 0
            &&& !v.has_password
            &&& v.dup_tag@ == Seq::<char>::empty()
            &&& v.days_since_update == 0
        },
    }
}

/// `d` with the favorite mark of entry `i` flipped, all else kept.
pub open spec fn with_favorite_flipped(d: VaultDataView, i: int) -> VaultDataView {
    VaultDataView {
        entries: d.entries.update(i, EntryRecord { is_favorite: !d.entries[i].is_favorite, ..d.entries[i] }),
        ..d
    }
}

/// Toggling twice restores: after `toggle_favorite` flipped the mark of
/// the entry that `id` finds, the same id still finds that entry, and a
/// second toggle gives back the vault data as it was.
pub proof fn lemma_toggle_twice_restores(d: VaultDataView, id: Seq<char>)
    requires
        find_entry(d.entries, id) is Some,
    ensures
        ({
            let i = find_entry(d.entries, id)->0;
            let d1 = with_favorite_flipped(d, i);
            &&& find_entry(d1.entries, id) == Some(i)
            &&& d1.entries[i].is_favorite == !d.entries[i].is_favorite
            &&& with_favorite_flipped(d1, i) == d
        }),
{
    let i = find_entry(d.entries, id)->0;
    crate::text::lemma_find_id(crate::vault::entry::entry_ids(d.entries), id);
    let d1 = with_favorite_flipped(d, i);
    assert(crate::vault::entry::entry_ids(d1.entries) =~= crate::vault::entry::entry_ids(d.entries));
    assert(with_favorite_flipped(d1, i).entries =~= d.entries);
}

/// The password that `update_entry_keep_password` writes: the new one when
/// a non-empty one is given, else the one stored for `id`, if it reads.
pub open spec fn kept_password(vk: Seq<u8>, entries: Seq<EntryRecord>, id: Seq<char>, new_password: Option<String>) -> Option<Seq<char>> {
    match new_password {
        Some(p) if p@.len() > 0 => Some(p@),
        _ => match find_entry(entries, id) {
            Some(i) => match entry_payload(vk, entries[i]) {
                Some(t) => Some(t.password),
                None => None,
            },
            None => None,
        },
    }
}

pub open spec fn empty_password_text() -> Seq<char> {
    "Password cannot be empty. Use update_entry_keep_password to keep the existing password."@
}

pub open spec fn invalid_token_text() -> Seq<char> {
    "Invalid or expired token"@
}

// ── Pieces ─────────────────────────────────────────────────────────────────

/// Decrypts every entry for display, in order; stops at the first that
/// does not open.
pub fn decrypt_all_entries(vault_key: &[u8; 32], vault_data: &VaultData) -> (r: Result<Vec<EntryView>, CypheriaError>)
    requires
        vault_data@.wf(),
    ensures
        entries_listed(vault_key@, vault_data@.entries, r),
{
    let ghost entries = vault_data@.entries;
    let mut views: Vec<EntryView> = Vec::new();
    let n = vault_data.entries.len();
    for i in 0..n
        invariant
            n == entries.len(),
            entries == vault_data@.entries,
            vault_data@.wf(),
            views@.len() == i,
            forall|j: int| 0 <= j < i ==> entry_shown(vault_key@, entries[j], &#[trigger] views@[j]),
    {
        assert(vault_data.entries@[i as int]@ == entries[i as int]);
        assert(entries[i as int].wf());
        match crate::vault::entry::decrypt_entry(vault_key, &vault_data.entries[i]) {
            Ok(v) => views.push(v),
            Err(e) => {
                proof {
                    assert forall|j: int| 0 <= j < i implies (#[trigger] entry_payload(vault_key@, entries[j])) is Some by {
                        assert(entry_shown(vault_key@, entries[j], &views@[j]));
                    }
                }
                return Err(e);
            },
        }
    }
    Ok(views)
}

/// Calls `char::is_alphanumeric`. For ASCII this is exactly the letters and
/// the digits; elsewhere it follows Unicode's tables, named by
/// `unicode_alphanumeric`.
#[verifier::external_body]
fn char_is_alphanumeric(c: char) -> (r: bool)
    ensures
        r == unicode_alphanumeric(c),
        (c as u32) < 128 ==> (r <==> (is_ascii_upper(c) || is_ascii_lower(c) || is_ascii_digit(c))),
{
    c.is_alphanumeric()
}

/// Scores a password from 0 to 100 (see `pwd_score`).
pub fn compute_pwd_score(pwd: &str) -> (r: u8)
    ensures
        r == pwd_score(pwd@),
{
    let chars = chars_of(pwd);
    if chars.len() == 0 {
        return 0;
    }
    let n = byte_len(pwd);
    let mut upper = false;
    let mut lower = false;
    let mut digit = false;
    let mut symbol = false;
    let m = chars.len();
    for i in 0..m
        invariant
            m == chars@.len(),
            chars@ == pwd@,
            upper == exists|j: int| 0 <= j < i && is_ascii_upper(#[trigger] chars@[j]),
            lower == exists|j: int| 0 <= j < i && is_ascii_lower(#[trigger] chars@[j]),
            digit == exists|j: int| 0 <= j < i && is_ascii_digit(#[trigger] chars@[j]),
            symbol == exists|j: int| 0 <= j < i && is_symbol(#[trigger] chars@[j]),
    {
        let c = chars[i];
        if 'A' <= c && c <= 'Z' {
            upper = true;
        }
        if 'a' <= c && c <= 'z' {
            lower = true;
        }
        if '0' <= c && c <= '9' {
            digit = true;
        }
        let is_sym = if (c as u32) < 128 {
            !(('A' <= c && c <= 'Z') || ('a' <= c && c <= 'z') || ('0' <= c && c <= '9'))
        } else {
            !char_is_alphanumeric(c)
        };
        assert(is_sym == is_symbol(c));
        if is_sym {
            symbol = true;
        }
    }
    let mut s: u32 = 0;
    if n >= 8 {
        s = s + 20;
    }
    if n >= 12 {
        s = s + 10;
    }
    if n >= 16 {
        s = s + 10;
    }
    if n >= 24 {
        s = s + 10;
    }
    if upper {
        s = s + 15;
    }
    if lower {
        s = s + 15;
    }
    if digit {
        s = s + 10;
    }
    if symbol {
        s = s + 10;
    }
    if s > 100 {
        100
    } else {
        s as u8
    }
}

/// The duplicate tag of `pwd` under the duplicate-detection key.
fn dup_tag(dup_key: &[u8; 32], pwd: &str) -> (r: String)
    ensures
        r@ == hex_lower(hmac_sha256(dup_key@, encode_utf8(pwd@)).take(4)),
        r@.len() == 8,
        forall|j: int| 0 <= j < 8 ==> is_hex_char(#[trigger] r@[j]),
{
    let msg = utf8_bytes(pwd);
    let mac = hmac_sha256_tag(dup_key, msg.as_slice());
    let head = slice_subrange(mac.as_slice(), 0, 4);
    assert(head@ =~= mac@.take(4));
    proof {
        lemma_hex_lower(head@);
    }
    hex_encode(head)
}

/// Scores every entry's password at time `now`, in order.
pub fn password_scores_at(vault_key: &[u8; 32], vault_data: &VaultData, now: Timestamp) -> (r: Vec<EntryScoreView>)
    requires
        vault_data@.wf(),
        now.valid(),
    ensures
        r@.len() == vault_data@.entries.len(),
        forall|i: int| 0 <= i < r@.len() ==> entry_scored(vault_key@, vault_data@.entries, i, now, &#[trigger] r@[i]),
{
    let ghost entries = vault_data@.entries;
    let mut dup_key = [0u8; 32];
    derive_subkey(vault_key, "PWD_DUP_DETECTION".as_bytes(), &mut dup_key);
    assert(dup_key@ == subkey(vault_key@, dup_domain()));
    let mut scores: Vec<EntryScoreView> = Vec::new();
    let n = vault_data.entries.len();
    for i in 0..n
        invariant
            n == entries.len(),
            entries == vault_data@.entries,
            vault_data@.wf(),
            now.valid(),
            dup_key@ == subkey(vault_key@, dup_domain()),
            scores@.len() == i,
            forall|j: int| 0 <= j < i ==> entry_scored(vault_key@, entries, j, now, &#[trigger] scores@[j]),
    {
        let e = &vault_data.entries[i];
        assert(e@ == entries[i as int]);
        assert(entries[i as int].wf());
        let read = crate::vault::entry::get_entry_password(vault_key, vault_data, e.id.as_str());
        let view = match read {
            Ok(pwd) => EntryScoreView {
                id: clone_string(&e.id),
                score: compute_pwd_score(pwd.as_str()),
                has_password: !is_empty_text(pwd.as_str()),
                dup_tag: dup_tag(&dup_key, pwd.as_str()),
                days_since_update: days_since(now, e.updated_at),
            },
            Err(_) => EntryScoreView {
                id: clone_string(&e.id),
                score: 0,
                has_password: false,
                dup_tag: String::new(),
                days_since_update: 0,
            },
        };
        scores.push(view);
    }
    wipe_array(&mut dup_key);
    scores
}

/// Removes every entry whose id is `id`, keeping the others in order.
fn remove_entries_with_id(entries: &mut Vec<EncryptedEntry>, id: &str)
    requires
        forall|j: int| 0 <= j < old(entries)@.len() ==> (#[trigger] old(entries)@[j])@.wf(),
    ensures
        final(entries)@.map_values(|e: EncryptedEntry| e@) == entries_without(old(entries)@.map_values(|e: EncryptedEntry| e@), id@),
        forall|j: int| 0 <= j < final(entries)@.len() ==> (#[trigger] final(entries)@[j])@.wf(),
{
    let ghost all = entries@;
    let ghost before = all.map_values(|e: EncryptedEntry| e@);
    let mut kept: Vec<EncryptedEntry> = Vec::new();
    let n = entries.len();
    let mut i: usize = 0;
    proof {
        reveal(Seq::filter);
        assert(before.take(0) =~= Seq::<EntryRecord>::empty());
        assert(kept@.map_values(|e: EncryptedEntry| e@) =~= Seq::<EntryRecord>::empty());
    }
    while i < n
        invariant
            n == all.len(),
            i <= n,
            before == all.map_values(|e: EncryptedEntry| e@),
            entries@ == all.skip(i as int),
            kept@.map_values(|e: EncryptedEntry| e@) == entries_without(before.take(i as int), id@),
            forall|j: int| 0 <= j < all.len() ==> (#[trigger] all[j])@.wf(),
            forall|j: int| 0 <= j < kept@.len() ==> (#[trigger] kept@[j])@.wf(),
        decreases n - i,
    {
        let e = entries.remove(0);
        assert(e == all[i as int]);
        assert(entries@ =~= all.skip(i + 1));
        let ghost prev = before.take(i as int);
        proof {
            reveal(Seq::filter);
            assert(before.take(i + 1).drop_last() =~= prev);
            assert(before.take(i + 1).last() == e@);
        }
        if !crate::text::str_eq(e.id.as_str(), id) {
            let ghost kv = kept@;
            kept.push(e);
            assert(kept@.map_values(|e: EncryptedEntry| e@) =~= kv.map_values(|e: EncryptedEntry| e@).push(all[i as int]@));
        }
        i = i + 1;
    }
    assert(before.take(n as int) =~= before);
    *entries = kept;
}

// ── Commands ───────────────────────────────────────────────────────────────

/// Lists every entry for display, without passwords.
pub fn get_all_entries(session: &mut SessionManager, now: u64) -> (r: Result<Vec<EntryView>, CypheriaError>)
    requires
        old(session).wf(),
    ensures
        final(session).wf(),
        old(session).state is Unlocked ==> *final(session) == *old(session) && entries_listed(session_vk(old(session)), session_data(old(session)).entries, r),
        !(old(session).state is Unlocked) ==> refused(old(session), final(session), now, r),
{
    match session.access(now) {
        Ok(()) => {},
        Err(e) => return Err(e),
    }
    match &session.state {
        SessionState::Unlocked { key_store, vault_store, .. } => decrypt_all_entries(key_store.vault_key_bytes(), &vault_store.data),
        _ => Err(CypheriaError::VaultLocked),
    }
}

/// Reveals the password of entry `entry_id`: the id is checked, then the
/// reveal rate limit at `unix_now`, then the access check.
pub fn get_entry_password(session: &mut SessionManager, now: u64, unix_now: u64, entry_id: &str) -> (r: Result<String, CypheriaError>)
    requires
        old(session).wf(),
    ensures
        final(session).wf(),
        !uuid_text_parses(entry_id@) ==> (r matches Err(CypheriaError::InvalidInput(m)) && m@ == "Invalid ID format"@ && *final(session) == *old(session)),
        uuid_text_parses(entry_id@) ==> {
            let limit = reveal_limit(old(session).reveal_count, old(session).reveal_window_start, unix_now);
            &&& final(session).reveal_count == limit.1
            &&& final(session).reveal_window_start == limit.2
            &&& final(session).attempts == old(session).attempts
            &&& limit.0 matches Err(e) ==> r == Err::<String, CypheriaError>(e) && final(session).state == old(session).state
            &&& limit.0 is Ok ==> match old(session).state {
                SessionState::Unlocked { .. } => final(session).state == old(session).state
                    && password_read(session_vk(old(session)), session_data(old(session)).entries, entry_id@, r),
                _ => r == Err::<String, CypheriaError>(refusal(old(session).state, now).0) && final(session).state == refusal(old(session).state, now).1,
            }
        },
{
    validate_uuid(entry_id)?;
    session.check_reveal_rate_limit_at(unix_now)?;
    match session.access(now) {
        Ok(()) => {},
        Err(e) => return Err(e),
    }
    match &session.state {
        SessionState::Unlocked { key_store, vault_store, .. } => crate::vault::entry::get_entry_password(
            key_store.vault_key_bytes(),
            &vault_store.data,
            entry_id,
        ),
        _ => Err(CypheriaError::VaultLocked),
    }
}

/// Adds an entry; returns its id.
pub fn add_entry(session: &mut SessionManager, now: u64, input: EntryInput) -> (r: Result<String, CypheriaError>)
    requires
        old(session).wf(),
    ensures
        final(session).wf(),
        !(old(session).state is Unlocked) ==> refused(old(session), final(session), now, r),
        old(session).state is Unlocked ==> {
            &&& only_data_changed(old(session), final(session))
            &&& r is Ok ==> entry_input_error(&input) is None
            &&& entry_input_error(&input) is None ==> ok_unless_machine(r)
            &&& entry_input_error(&input) matches Some(m) ==> (r matches Err(CypheriaError::InvalidInput(s)) && s@ == m)
            &&& r is Err ==> session_data(final(session)) == session_data(old(session))
            &&& r matches Ok(id) ==> uuid_text_parses(id@)
            &&& r matches Ok(id) ==> entry_added(session_vk(old(session)), session_data(old(session)), session_data(final(session)), &input, id@)
        },
{
    match session.access(now) {
        Ok(()) => {},
        Err(e) => return Err(e),
    }
    match &mut session.state {
        SessionState::Unlocked { key_store, vault_store, .. } => crate::vault::entry::add_entry(
            key_store.vault_key_bytes(),
            &mut vault_store.data,
            input,
        ),
        _ => Err(CypheriaError::VaultLocked),
    }
}

/// Replaces the content of entry `entry_id`. The password may not be
/// empty here (see `update_entry_keep_password`).
pub fn update_entry(session: &mut SessionManager, now: u64, entry_id: &str, input: EntryInput) -> (r: Result<(), CypheriaError>)
    requires
        old(session).wf(),
    ensures
        final(session).wf(),
        !uuid_text_parses(entry_id@) ==> (r matches Err(CypheriaError::InvalidInput(m)) && m@ == "Invalid ID format"@ && *final(session) == *old(session)),
        uuid_text_parses(entry_id@) && input.password@.len() == 0 ==> (r matches Err(CypheriaError::InvalidInput(m)) && m@ == empty_password_text() && *final(session) == *old(session)),
        uuid_text_parses(entry_id@) && input.password@.len() > 0 ==> {
            &&& !(old(session).state is Unlocked) ==> refused(old(session), final(session), now, r)
            &&& old(session).state is Unlocked ==> {
                &&& only_data_changed(old(session), final(session))
                &&& r is Ok ==> (entry_input_error(&input) is None && find_entry(session_data(old(session)).entries, entry_id@) is Some)
                &&& (entry_input_error(&input) is None && find_entry(session_data(old(session)).entries, entry_id@) is Some) ==> ok_unless_machine(r)
                &&& entry_input_error(&input) matches Some(m) ==> (r matches Err(CypheriaError::InvalidInput(s)) && s@ == m)
                &&& (entry_input_error(&input) is None && find_entry(session_data(old(session)).entries, entry_id@) is None) ==> (r matches Err(CypheriaError::EntryNotFound(s)) && s@ == entry_id@)
                &&& r is Err ==> session_data(final(session)) == session_data(old(session))
                &&& r is Ok ==> (find_entry(session_data(old(session)).entries, entry_id@) matches Some(i) && entry_updated(session_vk(old(session)), session_data(old(session)), session_data(final(session)), i, &input))
            }
        },
{
    validate_uuid(entry_id)?;
    if is_empty_text(input.password.as_str()) {
        return Err(invalid_input("Password cannot be empty. Use update_entry_keep_password to keep the existing password."));
    }
    match session.access(now) {
        Ok(()) => {},
        Err(e) => return Err(e),
    }
    match &mut session.state {
        SessionState::Unlocked { key_store, vault_store, .. } => crate::vault::entry::update_entry(
            key_store.vault_key_bytes(),
            &mut vault_store.data,
            entry_id,
            input,
        ),
        _ => Err(CypheriaError::VaultLocked),
    }
}

/// Deletes every entry with id `entry_id` and stamps the vault's update
/// time; `EntryNotFound` when there is none.
pub fn delete_entry(session: &mut SessionManager, now: u64, entry_id: &str) -> (r: Result<(), CypheriaError>)
    requires
        old(session).wf(),
    ensures
        final(session).wf(),
        !uuid_text_parses(entry_id@) ==> (r matches Err(CypheriaError::InvalidInput(m)) && m@ == "Invalid ID format"@ && *final(session) == *old(session)),
        uuid_text_parses(entry_id@) ==> {
            &&& !(old(session).state is Unlocked) ==> refused(old(session), final(session), now, r)
            &&& old(session).state is Unlocked ==> {
                let before = session_data(old(session));
                let after = session_data(final(session));
                &&& only_data_changed(old(session), final(session))
                &&& find_entry(before.entries, entry_id@) is None ==> (r matches Err(CypheriaError::EntryNotFound(s)) && s@ == entry_id@ && after == before)
                &&& find_entry(before.entries, entry_id@) is Some ==> {
                    ||| machine_failed(r) && after == before
                    ||| {
                        &&& r is Ok
                        &&& after.entries == entries_without(before.entries, entry_id@)
                        &&& after.notes == before.notes
                        &&& after.settings == before.settings
                    }
                }
            }
        },
{
    validate_uuid(entry_id)?;
    match session.access(now) {
        Ok(()) => {},
        Err(e) => return Err(e),
    }
    match &mut session.state {
        SessionState::Unlocked { vault_store, .. } => {
            let ghost before = vault_store.data@;
            let found = crate::vault::entry::find_entry_index(&vault_store.data.entries, entry_id);
            if found.is_none() {
                return Err(CypheriaError::EntryNotFound(string_of(entry_id)));
            }
            let stamp = utc_now()?;
            assert(forall|j: int| 0 <= j < vault_store.data.entries@.len() ==> (#[trigger] vault_store.data.entries@[j])@.wf()) by {
                assert forall|j: int| 0 <= j < vault_store.data.entries@.len() implies (#[trigger] vault_store.data.entries@[j])@.wf() by {
                    assert(before.entries[j] == vault_store.data.entries@[j]@);
                }
            }
            remove_entries_with_id(&mut vault_store.data.entries, entry_id);
            vault_store.data.updated_at = stamp;
            proof {
                assert(vault_store.data@.notes == before.notes);
                assert forall|k: int| 0 <= k < vault_store.data@.entries.len() implies (#[trigger] vault_store.data@.entries[k]).wf() by {
                    assert(vault_store.data@.entries[k] == vault_store.data.entries@[k]@);
                }
            }
            Ok(())
        },
        _ => Err(CypheriaError::VaultLocked),
    }
}

/// Flips the favorite mark of the first entry with id `entry_id`; returns
/// the new mark.
pub fn toggle_favorite(session: &mut SessionManager, now: u64, entry_id: &str) -> (r: Result<bool, CypheriaError>)
    requires
        old(session).wf(),
    ensures
        final(session).wf(),
        !uuid_text_parses(entry_id@) ==> (r matches Err(CypheriaError::InvalidInput(m)) && m@ == "Invalid ID format"@ && *final(session) == *old(session)),
        uuid_text_parses(entry_id@) ==> {
            &&& !(old(session).state is Unlocked) ==> refused(old(session), final(session), now, r)
            &&& old(session).state is Unlocked ==> {
                let before = session_data(old(session));
                let after = session_data(final(session));
                &&& only_data_changed(old(session), final(session))
                &&& match find_entry(before.entries, entry_id@) {
                    None => r matches Err(CypheriaError::EntryNotFound(s)) && s@ == entry_id@ && after == before,
                    Some(i) => {
                        &&& r == Ok::<bool, CypheriaError>(!before.entries[i].is_favorite)
                        &&& after == with_favorite_flipped(before, i)
                    },
                }
            }
        },
{
    validate_uuid(entry_id)?;
    match session.access(now) {
        Ok(()) => {},
        Err(e) => return Err(e),
    }
    match &mut session.state {
        SessionState::Unlocked { vault_store, .. } => {
            let ghost before = vault_store.data@;
            let i = match crate::vault::entry::find_entry_index(&vault_store.data.entries, entry_id) {
                Some(i) => i,
                None => return Err(CypheriaError::EntryNotFound(string_of(entry_id))),
            };
            let mut e = vault_store.data.entries.remove(i);
            e.is_favorite = !e.is_favorite;
            let flag = e.is_favorite;
            vault_store.data.entries.insert(i, e);
            proof {
                assert(vault_store.data@.entries =~= before.entries.update(i as int, EntryRecord { is_favorite: !before.entries[i as int].is_favorite, ..before.entries[i as int] }));
                assert(vault_store.data@.notes =~= before.notes);
                assert forall|k: int| 0 <= k < vault_store.data@.entries.len() implies (#[trigger] vault_store.data@.entries[k]).wf() by {
                    assert(before.entries[k].wf());
                }
            }
            Ok(flag)
        },
        _ => Err(CypheriaError::VaultLocked),
    }
}

/// Reads the password of entry `entry_id` and stores it under a one-use
/// token, which is returned in its place.
pub fn request_reveal_token(
    session: &mut SessionManager,
    reveal_store: &mut RevealStore,
    now: u64,
    unix_now: u64,
    entry_id: &str,
) -> (r: Result<String, CypheriaError>)
    requires
        old(session).wf(),
        old(reveal_store).wf(),
    ensures
        final(session).wf(),
        final(reveal_store).wf(),
        !uuid_text_parses(entry_id@) ==> (r matches Err(CypheriaError::InvalidInput(m)) && m@ == "Invalid ID format"@ && *final(session) == *old(session)),
        r is Err ==> final(reveal_store).contents() == old(reveal_store).contents(),
        r matches Ok(token) ==> old(session).state is Unlocked && final(session).state == old(session).state && exists|p: String|
            password_read(session_vk(old(session)), session_data(old(session)).entries, entry_id@, Ok::<String, CypheriaError>(p))
                && final(reveal_store).contents() == old(reveal_store).contents().insert(token@, #[trigger] p@),
        r is Err && !uuid_text_parses(entry_id@) ==> *final(session) == *old(session),
        r is Err && uuid_text_parses(entry_id@) ==> {
            let limit = reveal_limit(old(session).reveal_count, old(session).reveal_window_start, unix_now);
            &&& final(session).reveal_count == limit.1
            &&& final(session).reveal_window_start == limit.2
            &&& (limit.0 is Ok && old(session).state is Unlocked) ==> (machine_failed(r) || password_read(session_vk(old(session)), session_data(old(session)).entries, entry_id@, r))
        },
{
    let password = get_entry_password(session, now, unix_now, entry_id)?;
    reveal_store.store(password)
}

/// Hands out the password stored under a one-use token and forgets it.
pub fn consume_reveal_token(reveal_store: &mut RevealStore, token: &str) -> (r: Result<String, CypheriaError>)
    requires
        old(reveal_store).wf(),
    ensures
        final(reveal_store).wf(),
        final(reveal_store).contents() == old(reveal_store).contents().remove(token@),
        match old(reveal_store).contents().get(token@) {
            Some(p) => r matches Ok(s) && s@ == p,
            None => r matches Err(CypheriaError::InvalidInput(m)) && m@ == invalid_token_text(),
        },
{
    match reveal_store.consume(token) {
        Some(p) => Ok(p),
        None => Err(invalid_input("Invalid or expired token")),
    }
}

/// Updates an entry, keeping its password unless a non-empty new one is
/// given.
pub fn update_entry_keep_password(
    session: &mut SessionManager,
    now: u64,
    entry_id: &str,
    name: String,
    username: String,
    new_password: Option<String>,
    website: String,
    notes: String,
    is_favorite: Option<bool>,
    category: Option<String>,
    color: Option<String>,
    emoji: Option<String>,
) -> (r: Result<(), CypheriaError>)
    requires
        old(session).wf(),
    ensures
        final(session).wf(),
        !uuid_text_parses(entry_id@) ==> (r matches Err(CypheriaError::InvalidInput(m)) && m@ == "Invalid ID format"@ && *final(session) == *old(session)),
        uuid_text_parses(entry_id@) ==> {
            &&& !(old(session).state is Unlocked) ==> refused(old(session), final(session), now, r)
            &&& old(session).state is Unlocked ==> {
                let before = session_data(old(session));
                let vk = session_vk(old(session));
                &&& only_data_changed(old(session), final(session))
                &&& r is Ok ==> (find_entry(before.entries, entry_id@) is Some && (kept_password(vk, before.entries, entry_id@, new_password) matches Some(p)
                    && entry_text_error(name@, username@, p, website@, notes@, opt_chars(color)) is None))
                &&& (find_entry(before.entries, entry_id@) is Some && (kept_password(vk, before.entries, entry_id@, new_password) matches Some(p)
                    && entry_text_error(name@, username@, p, website@, notes@, opt_chars(color)) is None)) ==> ok_unless_machine(r)
                &&& r is Err ==> session_data(final(session)) == before
                &&& r is Ok ==> (find_entry(before.entries, entry_id@) matches Some(i) && entry_rewritten(
                    vk,
                    before,
                    session_data(final(session)),
                    i,
                    EntryText {
                        name: name@,
                        username: username@,
                        password: match new_password {
                            Some(p) if p@.len() > 0 => p@,
                            _ => entry_payload(vk, before.entries[i])->0.password,
                        },
                        website: website@,
                        notes: notes@,
                    },
                    is_favorite,
                    category,
                    color,
                    emoji,
                ))
            }
        },
{
    validate_uuid(entry_id)?;
    match session.access(now) {
        Ok(()) => {},
        Err(e) => return Err(e),
    }
    match &mut session.state {
        SessionState::Unlocked { key_store, vault_store, .. } => {
            let vk = key_store.vault_key_bytes();
            let ghost before = vault_store.data@;
            let ghost given = new_password;
            let password = match new_password {
                Some(p) if !is_empty_text(p.as_str()) => p,
                _ => {
                    let read = crate::vault::entry::get_entry_password(vk, &vault_store.data, entry_id);
                    assert(password_read(vk@, before.entries, entry_id@, read));
                    read?
                },
            };
            assert(match given {
                Some(p) if p@.len() > 0 => password@ == p@,
                _ => password_read(vk@, before.entries, entry_id@, Ok::<String, CypheriaError>(password)),
            });
            let input = EntryInput { name, username, password, website, notes, is_favorite, category, color, emoji };
            let ghost input_g = input;
            let r = crate::vault::entry::update_entry(vk, &mut vault_store.data, entry_id, input);
            proof {
                if r is Ok {
                    let i = find_entry(before.entries, entry_id@)->0;
                    assert(entry_updated(vk@, before, vault_store.data@, i, &input_g));
                    crate::text::lemma_find_id(crate::vault::entry::entry_ids(before.entries), entry_id@);
                }
            }
            r
        },
        _ => Err(CypheriaError::VaultLocked),
    }
}

/// Scores every entry's password as of now.
pub fn get_password_scores(session: &mut SessionManager, now: u64) -> (r: Result<Vec<EntryScoreView>, CypheriaError>)
    requires
        old(session).wf(),
    ensures
        final(session).wf(),
        !(old(session).state is Unlocked) ==> refused(old(session), final(session), now, r),
        old(session).state is Unlocked ==> *final(session) == *old(session) && (machine_failed(r) || (r matches Ok(v) && exists|t: Timestamp| t.valid() && {
            let entries = session_data(old(session)).entries;
            &&& v@.len() == entries.len()
            &&& forall|i: int| 0 <= i < v@.len() ==> entry_scored(session_vk(old(session)), entries, i, t, &#[trigger] v@[i])
        })),
{
    match session.access(now) {
        Ok(()) => {},
        Err(e) => return Err(e),
    }
    match &session.state {
        SessionState::Unlocked { key_store, vault_store, .. } => {
            let today = utc_now()?;
            Ok(password_scores_at(key_store.vault_key_bytes(), &vault_store.data, today))
        },
        _ => Err(CypheriaError::VaultLocked),
    }
}

} // verus!
