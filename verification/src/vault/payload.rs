//! The sealed payloads of entries and notes are JSON objects whose values
//! are all strings (`{"name": .., "username": .., ...}`). They are written
//! and read with serde_json as maps from strings to strings.
use vstd::prelude::*;
use std::collections::BTreeMap;
use vstd::utf8::{is_ascii_chars, is_ascii_chars_encode_utf8};
use crate::text::{clone_string, string_of, utf8_len};
use crate::vault::format::{EntryPayload, NotePayload};

verus! {

broadcast use vstd::string::group_string_axioms;

/// The characters of each (key, value) pair.
pub open spec fn pairs_view(v: Seq<(String, String)>) -> Seq<(Seq<char>, Seq<char>)> {
    v.map_values(|p: (String, String)| (p.0@, p.1@))
}

/// The value that `pairs` gives `key`: that of the last pair with that key.
pub open spec fn field(pairs: Seq<(Seq<char>, Seq<char>)>, key: Seq<char>) -> Option<Seq<char>>
    decreases pairs.len(),
{
    if pairs.len() == 0 {
        None
    } else if pairs.last().0 == key {
        Some(pairs.last().1)
    } else {
        field(pairs.drop_last(), key)
    }
}

/// The UTF-8 bytes of all the keys and values of `pairs`.
pub open spec fn pairs_bytes(pairs: Seq<(Seq<char>, Seq<char>)>) -> nat
    decreases pairs.len(),
{
    if pairs.len() == 0 {
        0
    } else {
        pairs_bytes(pairs.drop_last()) + utf8_len(pairs.last().0) + utf8_len(pairs.last().1)
    }
}

/// The JSON text that serde_json writes for the string map of `pairs`.
pub uninterp spec fn json_string_map(pairs: Seq<(Seq<char>, Seq<char>)>) -> Seq<u8>;

/// The (key, value) pairs that serde_json reads from `text` as a map from
/// strings to strings, in key order; nothing when `text` is not such a map.
pub uninterp spec fn json_string_map_pairs(text: Seq<u8>) -> Option<Seq<(Seq<char>, Seq<char>)>>;

/// Calls `serde_json::to_vec` on a `BTreeMap<&str, &str>` built from
/// `pairs`. Collecting into the map is how serde_json is handed a JSON
/// object: the keys come out in sorted order, and a later pair replaces an
/// earlier one with the same key (the library's callers pass distinct
/// keys). It
/// succeeds: serde_json documents that serialization fails only when a
/// `Serialize` impl fails or a map has keys that are not strings. Reading
/// the output back as a map gives every key the value that `pairs` gives it:
/// serde_json escapes every string it writes. The output is `{`, the
/// entries `"key":"value"` separated by commas, and `}`; serde_json's
/// escape table turns a byte of a string into at most 6 bytes (`\u00XX`).
#[verifier::external_body]
fn json_encode_string_map(pairs: &Vec<(String, String)>) -> (r: Option<Vec<u8>>)
    ensures
        r is Some,
        r matches Some(b) ==> b@.len() <= 6 * pairs_bytes(pairs_view(pairs@)) + 6 * pairs@.len() + 2,
        r matches Some(b) ==> b@ == json_string_map(pairs_view(pairs@)),
        r matches Some(b) ==> (json_string_map_pairs(b@) matches Some(d) && forall|k: Seq<char>| #[trigger] field(d, k) == field(pairs_view(pairs@), k)),
{
    let m: BTreeMap<&str, &str> = pairs.iter().map(|(k, v)| (k.as_str(), v.as_str())).collect();
    serde_json::to_vec(&m).ok()
}

/// Calls `serde_json::from_slice` for a `BTreeMap<String, String>` and lists
/// the map's pairs.
#[verifier::external_body]
fn json_decode_string_map(text: &[u8]) -> (r: Option<Vec<(String, String)>>)
    ensures
        r matches Some(v) ==> json_string_map_pairs(text@) == Some(pairs_view(v@)),
        r is None ==> json_string_map_pairs(text@) is None,
{
    serde_json::from_slice::<BTreeMap<String, String>>(text).ok().map(|m| m.into_iter().collect())
}

/// What an entry's payload says.
pub struct EntryText {
    pub name: Seq<char>,
    pub username: Seq<char>,
    pub password: Seq<char>,
    pub website: Seq<char>,
    pub notes: Seq<char>,
}

/// What a note's payload says.
pub struct NoteText {
    pub title: Seq<char>,
    pub content: Seq<char>,
}

impl View for EntryPayload {
    type V = EntryText;

    open spec fn view(&self) -> EntryText {
        EntryText {
            name: self.name@,
            username: self.username@,
            password: self.password@,
            website: self.website@,
            notes: self.notes@,
        }
    }
}

impl View for NotePayload {
    type V = NoteText;

    open spec fn view(&self) -> NoteText {
        NoteText { title: self.title@, content: self.content@ }
    }
}

/// The UTF-8 bytes of an entry's credentials.
pub open spec fn entry_text_bytes(t: EntryText) -> nat {
    utf8_len(t.name) + utf8_len(t.username) + utf8_len(t.password) + utf8_len(t.website) + utf8_len(t.notes)
}

/// The UTF-8 bytes of a note's title and content.
pub open spec fn note_text_bytes(t: NoteText) -> nat {
    utf8_len(t.title) + utf8_len(t.content)
}

/// The JSON fields of an entry payload.
pub open spec fn entry_fields(t: EntryText) -> Seq<(Seq<char>, Seq<char>)> {
    seq![
        ("name"@, t.name),
        ("username"@, t.username),
        ("password"@, t.password),
        ("website"@, t.website),
        ("notes"@, t.notes),
    ]
}

/// The JSON fields of a note payload.
pub open spec fn note_fields(t: NoteText) -> Seq<(Seq<char>, Seq<char>)> {
    seq![("title"@, t.title), ("content"@, t.content)]
}

/// The entry that a payload's plaintext describes: a string map with all
/// five keys.
pub open spec fn entry_text_of(plaintext: Seq<u8>) -> Option<EntryText> {
    match json_string_map_pairs(plaintext) {
        Some(d) => if field(d, "name"@) is Some && field(d, "username"@) is Some && field(
            d,
            "password"@,
        ) is Some && field(d, "website"@) is Some && field(d, "notes"@) is Some {
            Some(
                EntryText {
                    name: field(d, "name"@)->0,
                    username: field(d, "username"@)->0,
                    password: field(d, "password"@)->0,
                    website: field(d, "website"@)->0,
                    notes: field(d, "notes"@)->0,
                },
            )
        } else {
            None
        },
        None => None,
    }
}

/// The note that a payload's plaintext describes: a string map with both keys.
pub open spec fn note_text_of(plaintext: Seq<u8>) -> Option<NoteText> {
    match json_string_map_pairs(plaintext) {
        Some(d) => if field(d, "title"@) is Some && field(d, "content"@) is Some {
            Some(NoteText { title: field(d, "title"@)->0, content: field(d, "content"@)->0 })
        } else {
            None
        },
        None => None,
    }
}

/// The value of the last pair whose key is `key`.
fn lookup(pairs: &Vec<(String, String)>, key: &str) -> (r: Option<String>)
    ensures
        r matches Some(v) ==> field(pairs_view(pairs@), key@) == Some(v@),
        r is None ==> field(pairs_view(pairs@), key@) is None,
{
    let mut i = pairs.len();
    assert(pairs@.take(i as int) =~= pairs@);
    while i > 0
        invariant
            i <= pairs@.len(),
            field(pairs_view(pairs@), key@) == field(pairs_view(pairs@.take(i as int)), key@),
        decreases i,
    {
        let ghost pv = pairs_view(pairs@.take(i as int));
        assert(pv.last() == (pairs@[i - 1].0@, pairs@[i - 1].1@));
        assert(pv.drop_last() =~= pairs_view(pairs@.take(i - 1)));
        if crate::text::str_eq(pairs[i - 1].0.as_str(), key) {
            return Some(clone_string(&pairs[i - 1].1));
        }
        i = i - 1;
    }
    None
}

/// Lemma: `field` of the fields of a payload gives each field's value.
proof fn lemma_entry_fields(t: EntryText)
    ensures
        field(entry_fields(t), "name"@) == Some(t.name),
        field(entry_fields(t), "username"@) == Some(t.username),
        field(entry_fields(t), "password"@) == Some(t.password),
        field(entry_fields(t), "website"@) == Some(t.website),
        field(entry_fields(t), "notes"@) == Some(t.notes),
{
    reveal_strlit("name");
    reveal_strlit("username");
    reveal_strlit("password");
    reveal_strlit("website");
    reveal_strlit("notes");
    reveal_with_fuel(field, 6);
    assert("notes"@.len() == 5 && "name"@.len() == 4 && "website"@.len() == 7);
    assert("username"@.len() == 8 && "password"@.len() == 8);
    assert("username"@[0] == 'u' && "password"@[0] == 'p');
    assert("notes"@ != "name"@ && "website"@ != "name"@ && "password"@ != "name"@ && "username"@ != "name"@);
    assert("notes"@ != "username"@ && "website"@ != "username"@ && "password"@ != "username"@);
    assert("notes"@ != "password"@ && "website"@ != "password"@);
    assert("notes"@ != "website"@);
}

proof fn lemma_note_fields(t: NoteText)
    ensures
        field(note_fields(t), "title"@) == Some(t.title),
        field(note_fields(t), "content"@) == Some(t.content),
{
    reveal_strlit("title");
    reveal_strlit("content");
    reveal_with_fuel(field, 3);
    assert("content"@.len() == 7 && "title"@.len() == 5);
    assert("content"@ != "title"@);
}

proof fn lemma_ascii_len(s: Seq<char>)
    requires
        is_ascii_chars(s),
    ensures
        utf8_len(s) == s.len(),
{
    is_ascii_chars_encode_utf8(s);
}

proof fn lemma_entry_fields_bytes(t: EntryText)
    ensures
        pairs_bytes(entry_fields(t)) == entry_text_bytes(t) + 32,
{
    reveal_strlit("name");
    reveal_strlit("username");
    reveal_strlit("password");
    reveal_strlit("website");
    reveal_strlit("notes");
    lemma_ascii_len("name"@);
    lemma_ascii_len("username"@);
    lemma_ascii_len("password"@);
    lemma_ascii_len("website"@);
    lemma_ascii_len("notes"@);
    let f = entry_fields(t);
    assert(f.drop_last().drop_last().drop_last().drop_last().drop_last() =~= Seq::<(Seq<char>, Seq<char>)>::empty());
    reveal_with_fuel(pairs_bytes, 6);
}

proof fn lemma_note_fields_bytes(t: NoteText)
    ensures
        pairs_bytes(note_fields(t)) == note_text_bytes(t) + 12,
{
    reveal_strlit("title");
    reveal_strlit("content");
    lemma_ascii_len("title"@);
    lemma_ascii_len("content"@);
    let f = note_fields(t);
    assert(f.drop_last().drop_last() =~= Seq::<(Seq<char>, Seq<char>)>::empty());
    reveal_with_fuel(pairs_bytes, 3);
}

/// The JSON text of an entry payload.
pub fn encode_entry_payload(p: &EntryPayload) -> (r: Option<Vec<u8>>)
    ensures
        r is Some,
        r matches Some(b) ==> b@.len() <= 6 * entry_text_bytes(p@) + 224,
        r matches Some(b) ==> entry_text_of(b@) == Some(p@),
{
    let mut pairs: Vec<(String, String)> = Vec::new();
    pairs.push((string_of("name"), clone_string(&p.name)));
    pairs.push((string_of("username"), clone_string(&p.username)));
    pairs.push((string_of("password"), clone_string(&p.password)));
    pairs.push((string_of("website"), clone_string(&p.website)));
    pairs.push((string_of("notes"), clone_string(&p.notes)));
    assert(pairs_view(pairs@) =~= entry_fields(p@));
    let r = json_encode_string_map(&pairs);
    proof {
        lemma_entry_fields(p@);
        lemma_entry_fields_bytes(p@);
        if r is Some {
            let b = r->0;
            let d = json_string_map_pairs(b@)->0;
            assert(field(d, "name"@) == field(entry_fields(p@), "name"@));
            assert(field(d, "username"@) == field(entry_fields(p@), "username"@));
            assert(field(d, "password"@) == field(entry_fields(p@), "password"@));
            assert(field(d, "website"@) == field(entry_fields(p@), "website"@));
            assert(field(d, "notes"@) == field(entry_fields(p@), "notes"@));
        }
    }
    r
}

/// The entry payload that a plaintext describes.
pub fn decode_entry_payload(plaintext: &[u8]) -> (r: Option<EntryPayload>)
    ensures
        r matches Some(p) ==> entry_text_of(plaintext@) == Some(p@),
        r is None ==> entry_text_of(plaintext@) is None,
{
    let pairs = json_decode_string_map(plaintext)?;
    let name = lookup(&pairs, "name")?;
    let username = lookup(&pairs, "username")?;
    let password = lookup(&pairs, "password")?;
    let website = lookup(&pairs, "website")?;
    let notes = lookup(&pairs, "notes")?;
    Some(EntryPayload { name, username, password, website, notes })
}

/// The JSON text of a note payload.
pub fn encode_note_payload(p: &NotePayload) -> (r: Option<Vec<u8>>)
    ensures
        r is Some,
        r matches Some(b) ==> b@.len() <= 6 * note_text_bytes(p@) + 86,
        r matches Some(b) ==> note_text_of(b@) == Some(p@),
{
    let mut pairs: Vec<(String, String)> = Vec::new();
    pairs.push((string_of("title"), clone_string(&p.title)));
    pairs.push((string_of("content"), clone_string(&p.content)));
    assert(pairs_view(pairs@) =~= note_fields(p@));
    let r = json_encode_string_map(&pairs);
    proof {
        lemma_note_fields(p@);
        lemma_note_fields_bytes(p@);
        if r is Some {
            let b = r->0;
            let d = json_string_map_pairs(b@)->0;
            assert(field(d, "title"@) == field(note_fields(p@), "title"@));
            assert(field(d, "content"@) == field(note_fields(p@), "content"@));
        }
    }
    r
}

/// The note payload that a plaintext describes.
pub fn decode_note_payload(plaintext: &[u8]) -> (r: Option<NotePayload>)
    ensures
        r matches Some(p) ==> note_text_of(plaintext@) == Some(p@),
        r is None ==> note_text_of(plaintext@) is None,
{
    let pairs = json_decode_string_map(plaintext)?;
    let title = lookup(&pairs, "title")?;
    let content = lookup(&pairs, "content")?;
    Some(NotePayload { title, content })
}

} // verus!
