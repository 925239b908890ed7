//! Key derivation: Argon2id for the master key, SHA-256 for subkeys.
use vstd::prelude::*;
use argon2::{Algorithm, Argon2, Params, Version};
use crate::bytes::append_bytes;
use crate::crypto::mac::{sha256, sha256_digest};
use crate::error::CypheriaError;

verus! {

broadcast use vstd::string::group_string_axioms;

/// Argon2id parameters (OWASP recommended minimum for high-security use).
pub const ARGON2_MEMORY_KB: u32 = 65536;
pub const ARGON2_ITERATIONS: u32 = 3;
pub const ARGON2_PARALLELISM: u32 = 4;
pub const ARGON2_OUTPUT_LEN: usize = 32;

/// The largest degree of parallelism that argon2 accepts.
pub const ARGON2_MAX_PARALLELISM: u32 = 0xFFFFFF;

/// The 32-byte Argon2id (version 0x13) output for `password` and `salt`
/// with memory `m_cost` KiB, `t_cost` passes and `p_cost` lanes.
pub uninterp spec fn argon2id(password: Seq<u8>, salt: Seq<u8>, m_cost: u32, t_cost: u32, p_cost: u32) -> Seq<u8>;

/// The parameter sets that `argon2::Params::new` accepts for a 32-byte output.
pub open spec fn argon2_params_ok(m_cost: u32, t_cost: u32, p_cost: u32) -> bool {
    &&& m_cost >= 8
    &&& m_cost >= 8 * p_cost
    &&& t_cost >= 1
    &&& 1 <= p_cost <= ARGON2_MAX_PARALLELISM
}

/// The inputs on which Argon2id derivation succeeds.
pub open spec fn argon2_ok(password: Seq<u8>, m_cost: u32, t_cost: u32, p_cost: u32) -> bool {
    argon2_params_ok(m_cost, t_cost, p_cost) && password.len() <= 0xFFFF_FFFF
}

/// Calls `Params::new`, `Argon2::new` (Argon2id, version 0x13) and
/// `Argon2::hash_password_into` with a 32-byte output. As the argon2 source
/// shows, these fail exactly when the parameters are out of range or the
/// password is longer than 2^32 - 1 bytes (a 32-byte salt is always in
/// range). `p_cost` is bounded so that `Params::new` does not overflow when
/// it multiplies it by 8. The working memory (`m_cost` KiB) is allocated in
/// one piece; an allocation failure aborts the process.
#[verifier::external_body]
fn argon2id_hash(password: &[u8], salt: &[u8; 32], m_cost: u32, t_cost: u32, p_cost: u32) -> (r: Option<[u8; 32]>)
    requires
        p_cost <= ARGON2_MAX_PARALLELISM,
    ensures
        r is Some <==> argon2_ok(password@, m_cost, t_cost, p_cost),
        r matches Some(k) ==> k@ == argon2id(password@, salt@, m_cost, t_cost, p_cost),
{
    let params = Params::new(m_cost, t_cost, p_cost, Some(32)).ok()?;
    let argon2 = Argon2::new(Algorithm::Argon2id, Version::V0x13, params);
    let mut out = [0u8; 32];
    argon2.hash_password_into(password, salt, &mut out).ok()?;
    Some(out)
}

/// Derives a 32-byte master key from `password` and `salt` with the given
/// Argon2id parameters (those recorded in a vault header).
pub fn derive_master_key_with_params(
    password: &[u8],
    salt: &[u8; 32],
    m_cost: u32,
    t_cost: u32,
    p_cost: u32,
) -> (r: Result<[u8; 32], CypheriaError>)
    ensures
        r is Ok <==> argon2_ok(password@, m_cost, t_cost, p_cost),
        r matches Ok(k) ==> k@ == argon2id(password@, salt@, m_cost, t_cost, p_cost),
        r matches Err(e) ==> e == CypheriaError::KdfError,
{
    if p_cost > ARGON2_MAX_PARALLELISM {
        return Err(CypheriaError::KdfError);
    }
    match argon2id_hash(password, salt, m_cost, t_cost, p_cost) {
        Some(k) => Ok(k),
        None => Err(CypheriaError::KdfError),
    }
}

/// Derives the 32-byte master key from the master password and salt with
/// the current parameters (64 MiB, 3 passes, 4 lanes).
pub fn derive_master_key(password: &[u8], salt: &[u8; 32]) -> (r: Result<
    [u8; 32],
    CypheriaError,
>)
    ensures
        r is Ok <==> password@.len() <= 0xFFFF_FFFF,
        r matches Ok(k) ==> k@ == argon2id(
            password@,
            salt@,
            ARGON2_MEMORY_KB,
            ARGON2_ITERATIONS,
            ARGON2_PARALLELISM,
        ),
        r matches Err(e) ==> e == CypheriaError::KdfError,
{
    derive_master_key_with_params(
        password,
        salt,
        ARGON2_MEMORY_KB,
        ARGON2_ITERATIONS,
        ARGON2_PARALLELISM,
    )
}

/// The bytes `CYPHERIA_SUBKEY_v1|`.
pub open spec fn subkey_prefix() -> Seq<u8> {
    vstd::utf8::encode_utf8("CYPHERIA_SUBKEY_v1|"@)
}

/// What is hashed for a subkey: `CYPHERIA_SUBKEY_v1|` || domain || `|` || key.
pub open spec fn subkey_input(master_key: Seq<u8>, domain: Seq<u8>) -> Seq<u8> {
    subkey_prefix() + domain + seq![124u8] + master_key
}

/// The subkey for `domain`.
pub open spec fn subkey(master_key: Seq<u8>, domain: Seq<u8>) -> Seq<u8> {
    sha256(subkey_input(master_key, domain))
}

/// Domain-separated subkey derivation:
/// SHA-256("CYPHERIA_SUBKEY_v1|" || domain || "|" || master_key).
pub fn derive_subkey(master_key: &[u8; 32], domain: &[u8], out: &mut [u8; 32])
    ensures
        final(out)@ == subkey(master_key@, domain@),
{
    let mut input: Vec<u8> = Vec::new();
    let prefix = "CYPHERIA_SUBKEY_v1|".as_bytes();
    assert(prefix@ == subkey_prefix());
    append_bytes(&mut input, prefix);
    append_bytes(&mut input, domain);
    input.push(124u8);
    append_bytes(&mut input, master_key);
    assert(input@ =~= subkey_input(master_key@, domain@));
    *out = sha256_digest(input.as_slice());
}

/// Subkey derivation separates domains and keys: the hashed input for one
/// (key, domain) pair is never the input for another.
pub proof fn lemma_subkey_input_injective(k1: Seq<u8>, d1: Seq<u8>, k2: Seq<u8>, d2: Seq<u8>)
    requires
        k1.len() == 32,
        k2.len() == 32,
        subkey_input(k1, d1) == subkey_input(k2, d2),
    ensures
        k1 == k2,
        d1 == d2,
{
    let x = subkey_input(k1, d1);
    let p = subkey_prefix().len();
    assert(x.len() == p + d1.len() + 33);
    assert(subkey_input(k2, d2).len() == p + d2.len() + 33);
    assert(k1 =~= x.skip(x.len() - 32));
    assert(k2 =~= x.skip(x.len() - 32));
    assert(d1 =~= x.subrange(p as int, (p + d1.len()) as int));
    assert(d2 =~= x.subrange(p as int, (p + d2.len()) as int));
}

} // verus!
