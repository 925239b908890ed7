//! Byte-level helpers: little-endian integer encodings and concatenation.
use vstd::prelude::*;

verus! {

/// The two little-endian bytes of `x`.
pub open spec fn le_u16(x: u16) -> Seq<u8> {
    seq![(x % 256) as u8, (x / 256) as u8]
}

/// The four little-endian bytes of `x`.
pub open spec fn le_u32(x: u32) -> Seq<u8> {
    seq![
        (x % 256) as u8,
        ((x / 256) % 256) as u8,
        ((x / 65536) % 256) as u8,
        (x / 16777216) as u8,
    ]
}

/// The number whose little-endian bytes are `b[0], b[1]`.
pub open spec fn from_le_u16(b: Seq<u8>) -> nat {
    (b[0] as nat) + (b[1] as nat) * 256
}

/// The number whose little-endian bytes are `b[0] .. b[3]`.
pub open spec fn from_le_u32(b: Seq<u8>) -> nat {
    (b[0] as nat) + (b[1] as nat) * 256 + (b[2] as nat) * 65536 + (b[3] as nat) * 16777216
}

pub fn u16_to_le(x: u16) -> (r: [u8; 2])
    ensures
        r@ == le_u16(x),
{
    [(x % 256) as u8, (x / 256) as u8]
}

pub fn u32_to_le(x: u32) -> (r: [u8; 4])
    ensures
        r@ == le_u32(x),
{
    [(x % 256) as u8, ((x / 256) % 256) as u8, ((x / 65536) % 256) as u8, (x / 16777216) as u8]
}

/// Reads a little-endian `u16` at `at`.
pub fn read_le_u16(b: &[u8], at: usize) -> (r: u16)
    requires
        at + 2 <= b@.len(),
    ensures
        r as nat == from_le_u16(b@.subrange(at as int, at + 2)),
{
    let r = (b[at] as u16) + (b[at + 1] as u16) * 256;
    r
}

/// Reads a little-endian `u32` at `at`.
pub fn read_le_u32(b: &[u8], at: usize) -> (r: u32)
    requires
        at + 4 <= b@.len(),
    ensures
        r as nat == from_le_u32(b@.subrange(at as int, at + 4)),
{
    let r = (b[at] as u32) + (b[at + 1] as u32) * 256 + (b[at + 2] as u32) * 65536 + (b[at
        + 3] as u32) * 16777216;
    r
}

pub proof fn lemma_le_u16_roundtrip(x: u16)
    ensures
        from_le_u16(le_u16(x)) == x,
{
}

pub proof fn lemma_le_u32_roundtrip(x: u32)
    ensures
        from_le_u32(le_u32(x)) == x,
{
}

/// Appends `s` to `v`.
pub fn append_bytes(v: &mut Vec<u8>, s: &[u8])
    ensures
        final(v)@ == old(v)@ + s@,
{
    let n = s.len();
    let ghost start = v@;
    for i in 0..n
        invariant
            n == s@.len(),
            v@ == start + s@.take(i as int),
    {
        v.push(s[i]);
        assert(s@.take(i + 1) =~= s@.take(i as int).push(s@[i as int]));
    }
    assert(s@.take(n as int) =~= s@);
}

/// A new vector holding `s[from..to]`.
pub fn copy_range(s: &[u8], from: usize, to: usize) -> (r: Vec<u8>)
    requires
        from <= to <= s@.len(),
    ensures
        r@ == s@.subrange(from as int, to as int),
{
    let mut v: Vec<u8> = Vec::new();
    let mut i = from;
    while i < to
        invariant
            from <= i <= to <= s@.len(),
            v@ == s@.subrange(from as int, i as int),
        decreases to - i,
    {
        v.push(s[i]);
        assert(s@.subrange(from as int, i + 1) =~= s@.subrange(from as int, i as int).push(
            s@[i as int],
        ));
        i = i + 1;
    }
    v
}

/// Whether `s` begins with `prefix`.
pub fn starts_with(s: &[u8], prefix: &[u8]) -> (r: bool)
    ensures
        r == (prefix@.len() <= s@.len() && s@.take(prefix@.len() as int) == prefix@),
{
    if prefix.len() > s.len() {
        return false;
    }
    let n = prefix.len();
    for i in 0..n
        invariant
            n == prefix@.len(),
            n <= s@.len(),
            forall|j: int| 0 <= j < i ==> s@[j] == prefix@[j],
    {
        if s[i] != prefix[i] {
            assert(s@.take(n as int)[i as int] != prefix@[i as int]);
            return false;
        }
    }
    assert(s@.take(n as int) =~= prefix@);
    true
}

/// Whether two byte strings are equal (not constant-time; for public data).
pub fn bytes_eq(a: &[u8], b: &[u8]) -> (r: bool)
    ensures
        r == (a@ == b@),
{
    if a.len() != b.len() {
        return false;
    }
    let r = starts_with(a, b);
    assert(a@.take(b@.len() as int) =~= a@);
    r
}

} // verus!
