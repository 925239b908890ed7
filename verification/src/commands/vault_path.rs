//! The last opened vault path, kept as a JSON string in a file of the
//! application's data directory (never in the web view's storage). The
//! file holds only the path.
use vstd::prelude::*;
use crate::error::{invalid_input, CypheriaError};
use crate::text::{str_trim, string_of, trim};

verus! {

/// The JSON text that serde_json writes for the string `s`.
pub uninterp spec fn json_string(s: Seq<char>) -> Seq<char>;

/// What serde_json reads from `text` as an optional string: a string, or
/// `null` (nothing inside); nothing outside when `text` is not one.
pub uninterp spec fn json_optional_string(text: Seq<char>) -> Option<Option<Seq<char>>>;

/// Calls `serde_json::to_string` on `Some(s)`, which writes the JSON string
/// for `s`; serde_json documents that this fails only for a failing
/// `Serialize` impl or a map with keys that are not strings, so it succeeds.
/// Reading the text back as an optional string gives `s`: serde_json
/// escapes every character that needs it.
#[verifier::external_body]
fn json_encode_some_str(s: &str) -> (r: Option<String>)
    ensures
        r is Some,
        r matches Some(t) ==> t@ == json_string(s@) && json_optional_string(t@) == Some(Some(s@)),
{
    serde_json::to_string(&Some(s)).ok()
}

/// The characters of an optional string.
pub open spec fn opt_chars(o: Option<String>) -> Option<Seq<char>> {
    match o {
        Some(s) => Some(s@),
        None => None,
    }
}

/// Calls `serde_json::from_str` for an `Option<String>`.
#[verifier::external_body]
fn json_decode_optional_string(text: &str) -> (r: Option<Option<String>>)
    ensures
        r matches Some(o) ==> json_optional_string(text@) == Some(opt_chars(o)),
        r is None ==> json_optional_string(text@) is None,
{
    serde_json::from_str::<Option<String>>(text).ok()
}

pub open spec fn empty_path_text() -> Seq<char> {
    "Vault path cannot be empty"@
}

/// The path that a stored record gives: the string it holds, or nothing
/// when it is `null` or not JSON of an optional string.
pub open spec fn stored_path(text: Seq<char>) -> Option<Seq<char>> {
    match json_optional_string(text) {
        Some(Some(p)) => Some(p),
        _ => None,
    }
}

/// The text to store for `path`: the JSON string of the trimmed path. A
/// blank path is refused.
pub fn last_vault_path_record(path: &str) -> (r: Result<String, CypheriaError>)
    ensures
        trim(path@).len() == 0 ==> (r matches Err(CypheriaError::InvalidInput(m)) && m@ == empty_path_text()),
        trim(path@).len() > 0 ==> (r matches Ok(t) && t@ == json_string(trim(path@)) && stored_path(t@) == Some(trim(path@))),
{
    let trimmed = str_trim(path);
    if crate::text::is_empty_text(trimmed) {
        return Err(invalid_input("Vault path cannot be empty"));
    }
    match json_encode_some_str(trimmed) {
        Some(t) => Ok(t),
        None => Err(CypheriaError::SerdeError),
    }
}

/// The path that a stored record gives (see `stored_path`).
pub fn parse_last_vault_path(text: &str) -> (r: Option<String>)
    ensures
        opt_chars(r) == stored_path(text@),
{
    match json_decode_optional_string(text) {
        Some(Some(p)) => Some(p),
        _ => None,
    }
}

/// The stored path reads back as the trimmed path that was stored.
pub proof fn lemma_last_vault_path_roundtrip(path: Seq<char>, text: Seq<char>)
    requires
        json_optional_string(text) == Some(Some(trim(path))),
    ensures
        stored_path(text) == Some(trim(path)),
{
}

} // verus!
