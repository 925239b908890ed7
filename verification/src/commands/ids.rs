//! Entry and note identifiers are UUID v4 strings.
use vstd::prelude::*;
use uuid::Uuid;
use crate::crypto::rng::secure_random_bytes;
use crate::error::{invalid_input, is_rng_error, CypheriaError};
use crate::text::{hex_lower, lemma_hex_lower};

verus! {

/// An ASCII hexadecimal digit, in either case.
pub open spec fn is_hex_digit(c: char) -> bool {
    ('0' <= c <= '9') || ('a' <= c <= 'f') || ('A' <= c <= 'F')
}

/// The positions of the hyphens in the hyphenated form.
pub open spec fn is_hyphen_pos(i: int) -> bool {
    i == 8 || i == 13 || i == 18 || i == 23
}

/// The hyphenated form: 36 characters, hyphens at 8, 13, 18 and 23 and
/// hexadecimal digits elsewhere.
pub open spec fn hyphenated_uuid(s: Seq<char>) -> bool {
    &&& s.len() == 36
    &&& forall|i: int| 0 <= i < 36 ==> if is_hyphen_pos(i) {
        #[trigger] s[i] == '-'
    } else {
        is_hex_digit(s[i])
    }
}

/// `urn:uuid:`, its letters in either case.
pub open spec fn urn_prefix(s: Seq<char>) -> bool {
    &&& s.len() == 9
    &&& (s[0] == 'u' || s[0] == 'U') && (s[1] == 'r' || s[1] == 'R') && (s[2] == 'n' || s[2] == 'N')
    &&& s[3] == ':'
    &&& (s[4] == 'u' || s[4] == 'U') && (s[5] == 'u' || s[5] == 'U') && (s[6] == 'i' || s[6] == 'I')
    &&& (s[7] == 'd' || s[7] == 'D')
    &&& s[8] == ':'
}

/// Whether `Uuid::parse_str` accepts `s`: 32 hexadecimal digits, the
/// hyphenated form, the hyphenated form in braces, or `urn:uuid:` followed
/// by the hyphenated form. (The parser works on the UTF-8 bytes; every
/// accepted byte is ASCII, so counting characters is the same.)
#[verifier::opaque]
pub open spec fn uuid_text_parses(s: Seq<char>) -> bool {
    ||| s.len() == 32 && forall|i: int| 0 <= i < 32 ==> is_hex_digit(#[trigger] s[i])
    ||| hyphenated_uuid(s)
    ||| s.len() == 38 && s[0] == '{' && s[37] == '}' && hyphenated_uuid(s.subrange(1, 37))
    ||| s.len() == 45 && urn_prefix(s.take(9)) && hyphenated_uuid(s.skip(9))
}

/// The hyphenated lower-case text of 16 bytes is a form that
/// `Uuid::parse_str` accepts.
pub proof fn lemma_hyphenated_parses(b: Seq<u8>)
    requires
        b.len() == 16,
    ensures
        hyphenated_uuid(uuid_hyphenated(b)),
        uuid_text_parses(uuid_hyphenated(b)),
{
    let p0 = hex_lower(b.subrange(0, 4));
    let p1 = hex_lower(b.subrange(4, 6));
    let p2 = hex_lower(b.subrange(6, 8));
    let p3 = hex_lower(b.subrange(8, 10));
    let p4 = hex_lower(b.subrange(10, 16));
    lemma_hex_lower(b.subrange(0, 4));
    lemma_hex_lower(b.subrange(4, 6));
    lemma_hex_lower(b.subrange(6, 8));
    lemma_hex_lower(b.subrange(8, 10));
    lemma_hex_lower(b.subrange(10, 16));
    let s = uuid_hyphenated(b);
    assert(s.len() == 36);
    assert forall|i: int| 0 <= i < 36 implies if is_hyphen_pos(i) {
        #[trigger] s[i] == '-'
    } else {
        is_hex_digit(s[i])
    } by {
        if i < 8 {
            assert(s[i] == p0[i]);
        } else if i == 8 {
        } else if i < 13 {
            assert(s[i] == p1[i - 9]);
        } else if i == 13 {
        } else if i < 18 {
            assert(s[i] == p2[i - 14]);
        } else if i == 18 {
        } else if i < 23 {
            assert(s[i] == p3[i - 19]);
        } else if i == 23 {
        } else {
            assert(s[i] == p4[i - 24]);
        }
    }
    reveal(uuid_text_parses);
}

/// Calls `Uuid::parse_str` and reports whether it succeeded.
#[verifier::external_body]
fn uuid_parses(s: &str) -> (r: bool)
    ensures
        r == uuid_text_parses(s@),
{
    Uuid::parse_str(s).is_ok()
}

/// The 16 bytes of a version-4 UUID made from `random`: the version
/// nibble of byte 6 set to 4 and the variant bits of byte 8 set to `10`.
pub open spec fn uuid_v4_bytes(random: Seq<u8>) -> Seq<u8> {
    random.update(6, ((random[6] & 0x0f) | 0x40) as u8).update(8, ((random[8] & 0x3f) | 0x80) as u8)
}

/// The hyphenated lower-case text of 16 UUID bytes (8-4-4-4-12 digits).
pub open spec fn uuid_hyphenated(b: Seq<u8>) -> Seq<char> {
    hex_lower(b.subrange(0, 4)) + seq!['-'] + hex_lower(b.subrange(4, 6)) + seq!['-'] + hex_lower(
        b.subrange(6, 8),
    ) + seq!['-'] + hex_lower(b.subrange(8, 10)) + seq!['-'] + hex_lower(b.subrange(10, 16))
}

/// Calls `Builder::from_random_bytes`, `Builder::into_uuid` and `to_string`.
/// The uuid source sets the version and variant bits of the bytes and
/// formats the UUID hyphenated in lower case.
#[verifier::external_body]
fn uuid_v4_text(random: [u8; 16]) -> (r: String)
    ensures
        r@ == uuid_hyphenated(uuid_v4_bytes(random@)),
{
    uuid::Builder::from_random_bytes(random).into_uuid().to_string()
}

/// A new random UUID v4 in hyphenated form; the random-source error when
/// the operating system's entropy source fails.
pub(crate) fn new_uuid_string() -> (r: Result<String, CypheriaError>)
    ensures
        r matches Ok(s) ==> uuid_text_parses(s@) && exists|b: Seq<u8>| b.len() == 16 && s@ == uuid_hyphenated(uuid_v4_bytes(b)),
        r matches Err(e) ==> is_rng_error(e),
{
    let random = secure_random_bytes::<16>()?;
    let s = uuid_v4_text(random);
    proof {
        lemma_hyphenated_parses(uuid_v4_bytes(random@));
    }
    Ok(s)
}

/// Checks that `id` is a well-formed UUID.
pub fn validate_uuid(id: &str) -> (r: Result<(), CypheriaError>)
    ensures
        r is Ok <==> uuid_text_parses(id@),
        r matches Err(e) ==> (e matches CypheriaError::InvalidInput(s) && s@ == "Invalid ID format"@),
{
    if uuid_parses(id) {
        Ok(())
    } else {
        Err(invalid_input("Invalid ID format"))
    }
}

} // verus!
