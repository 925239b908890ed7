//! The record of failed unlock attempts kept on disk between runs.
//!
//! The record is the text `count:lockout_until|tag`, where the tag is the
//! lower-case hexadecimal HMAC-SHA256 of `count:lockout_until` under a key
//! folded from the user's name. The key is not secret: the tag makes a
//! change to the record evident, it does not stop a local user who knows
//! the scheme. A record whose tag does not match counts as a full set of
//! failed attempts.
use vstd::prelude::*;
use vstd::slice::slice_subrange;
use vstd::utf8::{decode_utf8, encode_utf8, encode_utf8_decode_utf8, encode_utf8_valid_utf8, valid_utf8};
use crate::crypto::mac::{hmac_sha256, hmac_sha256_tag};
use crate::session::manager::MAX_UNLOCK_ATTEMPTS;
use crate::text::{
    all_digits, chars_of, decimal, find_char, first_index, hex_encode, hex_lower, is_hex_char,
    is_white_space, lemma_decimal, lemma_first_index, lemma_hex_lower, lemma_parse_decimal,
    lemma_trim_unchanged, parse_decimal, parse_unsigned, push_char, push_decimal, push_str,
    str_eq, str_trim, string_from_chars, string_from_utf8, trim, utf8_bytes, is_digit,
};

verus! {

broadcast use vstd::string::group_string_axioms;

// ── Specifications ─────────────────────────────────────────────────────────

/// The text appended to the user's name before it is folded into a key.
pub open spec fn key_suffix() -> Seq<char> {
    "cypheria.attempts.v1"@
}

/// `bytes` folded into 32 bytes by XOR: byte `i` goes into position
/// `i mod 32`.
pub open spec fn xor_fold(bytes: Seq<u8>) -> Seq<u8>
    decreases bytes.len(),
{
    if bytes.len() == 0 {
        Seq::new(32, |i: int| 0u8)
    } else {
        let k = xor_fold(bytes.drop_last());
        let i = (bytes.len() - 1) % 32;
        k.update(i, k[i] ^ bytes.last())
    }
}

/// The key that signs the record of `user`.
pub open spec fn attempts_key(user: Seq<char>) -> Seq<u8> {
    xor_fold(encode_utf8(user + key_suffix()))
}

/// The tag of `payload` for `user`.
pub open spec fn attempts_tag(user: Seq<char>, payload: Seq<char>) -> Seq<char> {
    hex_lower(hmac_sha256(attempts_key(user), encode_utf8(payload)))
}

/// The payload `count:lockout_until`.
pub open spec fn attempts_payload(count: u32, lockout_until: u64) -> Seq<char> {
    decimal(count as nat) + seq![':'] + decimal(lockout_until as nat)
}

/// `text` is the record that `format_attempts_record` writes for `user`.
pub open spec fn attempts_record(user: Seq<char>, count: u32, lockout_until: u64, text: Seq<char>) -> bool {
    let payload = attempts_payload(count, lockout_until);
    &&& hmac_sha256(attempts_key(user), encode_utf8(payload)).len() == 32
    &&& text == payload + seq!['|'] + attempts_tag(user, payload)
}

/// `s` read as a number no larger than `max`, or 0 if it is not one.
pub open spec fn parse_or_zero(s: Seq<char>, max: nat) -> nat {
    match parse_unsigned(s, max) {
        Some(v) => v,
        None => 0,
    }
}

/// What the record read from a file gives: `(count, lockout_until)`. Text
/// that is not UTF-8, or a signed payload without a `:`, gives nothing
/// (`(0, 0)`); a missing or wrong tag gives a full set of failed attempts;
/// a field that is not a number reads as 0.
pub open spec fn attempts_record_value(user: Seq<char>, file: Seq<u8>) -> (u32, u64) {
    if !valid_utf8(file) {
        (0, 0)
    } else {
        let s = trim(decode_utf8(file));
        let payload = match first_index(s, '|') {
            Some(i) => s.take(i),
            None => s,
        };
        let tag = match first_index(s, '|') {
            Some(i) => s.skip(i + 1),
            None => Seq::empty(),
        };
        if tag.len() == 0 || attempts_tag(user, payload) != tag {
            (MAX_UNLOCK_ATTEMPTS, 0)
        } else {
            match first_index(payload, ':') {
                None => (0, 0),
                Some(j) => (
                    parse_or_zero(payload.take(j), u32::MAX as nat) as u32,
                    parse_or_zero(payload.skip(j + 1), u64::MAX as nat) as u64,
                ),
            }
        }
    }
}

// ── Key and tag ────────────────────────────────────────────────────────────

proof fn lemma_xor_fold_len(bytes: Seq<u8>)
    ensures
        xor_fold(bytes).len() == 32,
    decreases bytes.len(),
{
    if bytes.len() > 0 {
        lemma_xor_fold_len(bytes.drop_last());
    }
}

/// The key that signs the record of `user`: the UTF-8 bytes of the user's
/// name followed by `cypheria.attempts.v1`, folded into 32 bytes by XOR.
pub fn attempts_hmac_key(user: &str) -> (k: [u8; 32])
    ensures
        k@ == attempts_key(user@),
{
    let mut text = String::new();
    push_str(&mut text, user);
    push_str(&mut text, "cypheria.attempts.v1");
    let bytes = utf8_bytes(text.as_str());
    let mut key = [0u8; 32];
    let n = bytes.len();
    proof {
        assert(key@ =~= xor_fold(bytes@.take(0)));
    }
    for i in 0..n
        invariant
            n == bytes@.len(),
            bytes@ == encode_utf8(user@ + key_suffix()),
            key@ == xor_fold(bytes@.take(i as int)),
    {
        proof {
            lemma_xor_fold_len(bytes@.take(i as int));
            assert(bytes@.take(i + 1).drop_last() =~= bytes@.take(i as int));
        }
        let j = i % 32;
        let b = key[j] ^ bytes[i];
        key[j] = b;
        proof {
            assert(key@ =~= xor_fold(bytes@.take(i + 1)));
        }
    }
    proof {
        assert(bytes@.take(n as int) =~= bytes@);
    }
    key
}

/// The tag of `payload`: the lower-case hexadecimal HMAC-SHA256 of its
/// UTF-8 bytes under the key of `user`.
pub fn sign_attempts(user: &str, payload: &str) -> (r: String)
    ensures
        r@ == attempts_tag(user@, payload@),
        hmac_sha256(attempts_key(user@), encode_utf8(payload@)).len() == 32,
{
    let key = attempts_hmac_key(user);
    let msg = utf8_bytes(payload);
    let tag = hmac_sha256_tag(&key, msg.as_slice());
    hex_encode(tag.as_slice())
}

/// Whether `tag` is the tag of `payload` for `user`.
pub fn verify_attempts(user: &str, payload: &str, tag: &str) -> (r: bool)
    ensures
        r == (attempts_tag(user@, payload@) == tag@),
{
    let expected = sign_attempts(user, payload);
    str_eq(expected.as_str(), tag)
}

// ── Reading and writing ────────────────────────────────────────────────────

/// Reads the record from the bytes of the attempts file.
pub fn read_attempts_record(user: &str, file: Vec<u8>) -> (r: (u32, u64))
    ensures
        r == attempts_record_value(user@, file@),
{
    let ghost bytes = file@;
    let text = match string_from_utf8(file) {
        Some(t) => t,
        None => return (0, 0),
    };
    let trimmed = str_trim(text.as_str());
    let s = chars_of(trimmed);
    let ghost sv = s@;
    assert(sv == trim(decode_utf8(bytes)));
    let n = s.len();
    let chars = s.as_slice();
    assert(chars@ == sv);
    let pos = find_char(chars, '|');
    let payload_end: usize = match pos {
        Some(i) => i,
        None => n,
    };
    let tag_start: usize = match pos {
        Some(i) => i + 1,
        None => n,
    };
    let payload = slice_subrange(chars, 0, payload_end);
    let tag = slice_subrange(chars, tag_start, n);
    assert(payload@ =~= sv.take(payload_end as int));
    assert(tag@ =~= sv.skip(tag_start as int));
    assert(sv.take(n as int) =~= sv);
    assert(sv.skip(n as int) =~= Seq::<char>::empty());
    assert(payload@ == (match first_index(sv, '|') {
        Some(i) => sv.take(i),
        None => sv,
    }));
    assert(tag@ == (match first_index(sv, '|') {
        Some(i) => sv.skip(i + 1),
        None => Seq::<char>::empty(),
    }));
    if tag.len() == 0 {
        return (MAX_UNLOCK_ATTEMPTS, 0);
    }
    let payload_text = string_from_chars(payload);
    let tag_text = string_from_chars(tag);
    if !verify_attempts(user, payload_text.as_str(), tag_text.as_str()) {
        return (MAX_UNLOCK_ATTEMPTS, 0);
    }
    let m = payload.len();
    match find_char(payload, ':') {
        None => (0, 0),
        Some(j) => {
            let first = slice_subrange(payload, 0, j);
            let second = slice_subrange(payload, j + 1, m);
            assert(first@ =~= payload@.take(j as int));
            assert(second@ =~= payload@.skip(j + 1));
            let count: u32 = match parse_decimal(first, 0xFFFF_FFFF) {
                Some(v) => v as u32,
                None => 0,
            };
            let until: u64 = match parse_decimal(second, 0xFFFF_FFFF_FFFF_FFFF) {
                Some(v) => v,
                None => 0,
            };
            (count, until)
        },
    }
}

/// The record for `count` failed attempts and a lockout that ends at
/// Unix second `lockout_until` (0 for none).
pub fn format_attempts_record(user: &str, count: u32, lockout_until: u64) -> (r: String)
    ensures
        attempts_record(user@, count, lockout_until, r@),
{
    let mut payload = String::new();
    push_decimal(&mut payload, count as u64);
    push_char(&mut payload, ':');
    push_decimal(&mut payload, lockout_until);
    assert(payload@ =~= attempts_payload(count, lockout_until));
    let tag = sign_attempts(user, payload.as_str());
    let mut out = String::new();
    push_str(&mut out, payload.as_str());
    push_char(&mut out, '|');
    push_str(&mut out, tag.as_str());
    assert(out@ =~= attempts_payload(count, lockout_until) + seq!['|'] + attempts_tag(user@, attempts_payload(count, lockout_until)));
    out
}

// ── Laws ───────────────────────────────────────────────────────────────────

/// A record reads back what was written: the UTF-8 bytes of the record that
/// `format_attempts_record` makes for `user` give its count and lockout
/// end when read for the same user.
pub proof fn lemma_attempts_record_roundtrip(user: Seq<char>, count: u32, lockout_until: u64, text: Seq<char>)
    requires
        attempts_record(user, count, lockout_until, text),
    ensures
        attempts_record_value(user, encode_utf8(text)) == (count, lockout_until),
{
    let payload = attempts_payload(count, lockout_until);
    let mac = hmac_sha256(attempts_key(user), encode_utf8(payload));
    let tag = attempts_tag(user, payload);
    let dc = decimal(count as nat);
    let du = decimal(lockout_until as nat);
    encode_utf8_valid_utf8(text);
    encode_utf8_decode_utf8(text);
    lemma_decimal(count as nat);
    lemma_decimal(lockout_until as nat);
    lemma_hex_lower(mac);
    assert(tag.len() == 64);
    // the record neither starts nor ends with white space
    assert(text[0] == dc[0]);
    assert(is_digit(dc[0]));
    assert(text.last() == tag[63]);
    assert(is_hex_char(tag[63]));
    lemma_trim_unchanged(text);
    // the payload holds digits and one `:`, so the first `|` ends it
    assert forall|j: int| 0 <= j < payload.len() implies text[j] != '|' by {
        assert(text[j] == payload[j]);
        if j < dc.len() {
            assert(payload[j] == dc[j]);
            assert(is_digit(dc[j]));
        } else if j > dc.len() {
            assert(payload[j] == du[j - dc.len() - 1]);
            assert(is_digit(du[j - dc.len() - 1]));
        }
    }
    lemma_first_index(text, '|', payload.len() as int);
    assert(text.take(payload.len() as int) =~= payload);
    assert(text.skip(payload.len() as int + 1) =~= tag);
    // the first `:` of the payload ends the count
    assert forall|j: int| 0 <= j < dc.len() implies payload[j] != ':' by {
        assert(payload[j] == dc[j]);
        assert(is_digit(dc[j]));
    }
    lemma_first_index(payload, ':', dc.len() as int);
    assert(payload.take(dc.len() as int) =~= dc);
    assert(payload.skip(dc.len() as int + 1) =~= du);
    lemma_parse_decimal(count as nat, u32::MAX as nat);
    lemma_parse_decimal(lockout_until as nat, u64::MAX as nat);
}

} // verus!
