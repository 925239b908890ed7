//! All random bytes flow through this module; they come from the operating
//! system's entropy source.
use vstd::prelude::*;
use rand::RngCore;
use crate::error::{is_rng_error, rng_error, CypheriaError};

verus! {

/// Fills `buf` from `OsRng::try_fill_bytes`, which reports an error when the
/// operating system's entropy source fails; the result is `false` then.
/// Nothing is stated of the bytes: they are random.
#[verifier::external_body]
fn try_fill_from_os<const N: usize>(buf: &mut [u8; N]) -> (ok: bool) {
    match rand::rngs::OsRng.try_fill_bytes(buf) {
        Ok(()) => true,
        Err(_) => false,
    }
}

/// `N` random bytes from the operating system; the random-source error
/// when its entropy source fails.
pub fn secure_random_bytes<const N: usize>() -> (r: Result<[u8; N], CypheriaError>)
    ensures
        r matches Err(e) ==> is_rng_error(e),
{
    let mut buf = [0u8; N];
    if try_fill_from_os(&mut buf) {
        Ok(buf)
    } else {
        Err(rng_error())
    }
}

/// A random AES-GCM nonce (96 bits).
pub fn aes_nonce() -> (r: Result<[u8; 12], CypheriaError>)
    ensures
        r matches Err(e) ==> is_rng_error(e),
{
    secure_random_bytes::<12>()
}

/// A random Argon2id salt (256 bits).
pub fn argon2_salt() -> (r: Result<[u8; 32], CypheriaError>)
    ensures
        r matches Err(e) ==> is_rng_error(e),
{
    secure_random_bytes::<32>()
}

/// A fresh random entry, note or vault key (256 bits).
pub fn entry_key() -> (r: Result<[u8; 32], CypheriaError>)
    ensures
        r matches Err(e) ==> is_rng_error(e),
{
    secure_random_bytes::<32>()
}

} // verus!
