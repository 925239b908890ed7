//! Kyber-1024 post-quantum encapsulation of the vault key.
//!
//! Beside the classical path (the vault key wrapped under the master key),
//! the vault header holds a Kyber ciphertext and the vault key wrapped under
//! the encapsulated shared secret, so that the Kyber secret key alone can
//! recover the vault key.
use vstd::prelude::*;
use pqcrypto_kyber::kyber1024;
use pqcrypto_traits::kem::{Ciphertext, PublicKey, SecretKey, SharedSecret};
use crate::crypto::aes::{self, sealed, unwrap_error, unwrapped};
use crate::crypto::keys::wipe_array;
use crate::crypto::mac::ct_eq;
use crate::error::{is_rng_error, machine_failed, pq_check_error, pq_check_error_text, CypheriaError};

verus! {

pub const KYBER_PUBLIC_KEY_LEN: usize = 1568;
pub const KYBER_SECRET_KEY_LEN: usize = 3168;
pub const KYBER_CIPHERTEXT_LEN: usize = 1568;

/// The 32-byte shared secret that Kyber-1024 decapsulation of `ciphertext`
/// under `secret_key` yields.
pub uninterp spec fn kyber1024_decapsulate(secret_key: Seq<u8>, ciphertext: Seq<u8>) -> Seq<u8>;

/// Calls `kyber1024::keypair`: a fresh random key pair, as byte strings of
/// 1568 (public) and 3168 (secret) bytes. The keys are random, so nothing
/// else is stated of them. pqcrypto draws its randomness through a hook
/// that panics when the operating system's random source fails; it offers
/// no fallible form, so that failure is not returned as an error here.
#[verifier::external_body]
fn kyber1024_keypair() -> (r: (Vec<u8>, Vec<u8>))
    ensures
        r.0@.len() == KYBER_PUBLIC_KEY_LEN,
        r.1@.len() == KYBER_SECRET_KEY_LEN,
{
    let (pk, sk) = kyber1024::keypair();
    (pk.as_bytes().to_vec(), sk.as_bytes().to_vec())
}

/// Calls `PublicKey::from_bytes` and `kyber1024::encapsulate`: for a public
/// key of the right length, a random 32-byte shared secret and its
/// 1568-byte ciphertext. Both are random, so only their lengths are stated.
/// As with `kyber1024_keypair`, a failure of the random source panics.
#[verifier::external_body]
fn kyber1024_encapsulate(public_key: &[u8]) -> (r: Option<(Vec<u8>, Vec<u8>)>)
    ensures
        r is Some <==> public_key@.len() == KYBER_PUBLIC_KEY_LEN,
        r matches Some(x) ==> x.0@.len() == 32 && x.1@.len() == KYBER_CIPHERTEXT_LEN,
{
    let pk = kyber1024::PublicKey::from_bytes(public_key).ok()?;
    let (ss, ct) = kyber1024::encapsulate(&pk);
    Some((ss.as_bytes().to_vec(), ct.as_bytes().to_vec()))
}

/// Calls `SecretKey::from_bytes`, `Ciphertext::from_bytes` and
/// `kyber1024::decapsulate`: for inputs of the right lengths, the 32-byte
/// shared secret that the ciphertext decapsulates to.
#[verifier::external_body]
fn kyber1024_decap(secret_key: &[u8], ciphertext: &[u8]) -> (r: Option<Vec<u8>>)
    ensures
        r is Some <==> (secret_key@.len() == KYBER_SECRET_KEY_LEN && ciphertext@.len() == KYBER_CIPHERTEXT_LEN),
        r matches Some(ss) ==> ss@ == kyber1024_decapsulate(secret_key@, ciphertext@),
        r matches Some(ss) ==> ss@.len() == 32,
{
    let sk = kyber1024::SecretKey::from_bytes(secret_key).ok()?;
    let ct = kyber1024::Ciphertext::from_bytes(ciphertext).ok()?;
    Some(kyber1024::decapsulate(&ct, &sk).as_bytes().to_vec())
}

/// A freshly generated Kyber-1024 key pair. The secret key must be
/// encrypted before it is stored in the vault header.
pub struct KyberKeypair {
    pub public_key: Vec<u8>,
    pub secret_key: Vec<u8>,
}

/// Generates a fresh Kyber-1024 key pair.
pub fn generate_keypair() -> (kp: KyberKeypair)
    ensures
        kp.public_key@.len() == KYBER_PUBLIC_KEY_LEN,
        kp.secret_key@.len() == KYBER_SECRET_KEY_LEN,
{
    let (public_key, secret_key) = kyber1024_keypair();
    KyberKeypair { public_key, secret_key }
}

fn key_from_bytes(b: &[u8]) -> (k: [u8; 32])
    requires
        b@.len() == 32,
    ensures
        k@ == b@,
{
    let mut k = [0u8; 32];
    for i in 0..32
        invariant
            b@.len() == 32,
            forall|j: int| 0 <= j < i ==> k@[j] == b@[j],
    {
        k[i] = b[i];
    }
    assert(k@ =~= b@);
    k
}

/// Encapsulates the vault key under a Kyber public key.
///
/// Returns the Kyber ciphertext and the vault key wrapped under the shared
/// secret that the ciphertext encapsulates.
pub fn encapsulate_vault_key(kyber_pk_bytes: &[u8], vault_key: &[u8; 32]) -> (r: Result<
    (Vec<u8>, Vec<u8>),
    CypheriaError,
>)
    ensures
        !machine_failed(r) ==> (r is Ok <==> kyber_pk_bytes@.len() == KYBER_PUBLIC_KEY_LEN),
        r is Ok ==> kyber_pk_bytes@.len() == KYBER_PUBLIC_KEY_LEN,
        r matches Ok(x) ==> x.0@.len() == KYBER_CIPHERTEXT_LEN,
        r matches Ok(x) ==> exists|ss: Seq<u8>| ss.len() == 32 && sealed(ss, vault_key@, x.1@),
        r matches Err(e) ==> e == CypheriaError::CryptoError || is_rng_error(e),
{
    let (shared_secret, ciphertext) = match kyber1024_encapsulate(kyber_pk_bytes) {
        Some(x) => x,
        None => return Err(CypheriaError::CryptoError),
    };
    let mut aes_key = key_from_bytes(shared_secret.as_slice());
    let wrapped_vk = match aes::wrap_key(&aes_key, vault_key) {
        Ok(w) => w,
        Err(e) => {
            wipe_array(&mut aes_key);
            return Err(e);
        },
    };
    let ghost ss = aes_key@;
    assert(sealed(ss, vault_key@, wrapped_vk@));
    wipe_array(&mut aes_key);
    Ok((ciphertext, wrapped_vk))
}

/// What the post-quantum path recovers: the vault key that `wrapped_vk`
/// unwraps to under the shared secret of `kyber_ciphertext`.
pub open spec fn pq_recovered(kyber_sk: Seq<u8>, kyber_ciphertext: Seq<u8>, wrapped_vk: Seq<u8>) -> Option<Seq<u8>> {
    if kyber_sk.len() != KYBER_SECRET_KEY_LEN || kyber_ciphertext.len() != KYBER_CIPHERTEXT_LEN {
        None
    } else {
        unwrapped(kyber1024_decapsulate(kyber_sk, kyber_ciphertext), wrapped_vk)
    }
}

/// Decapsulates the vault key with the Kyber secret key (the post-quantum
/// recovery path).
pub fn decapsulate_vault_key(kyber_sk_bytes: &[u8], kyber_ciphertext: &[u8], wrapped_vk: &[u8]) -> (r: Result<
    [u8; 32],
    CypheriaError,
>)
    ensures
        r matches Ok(k) ==> pq_recovered(kyber_sk_bytes@, kyber_ciphertext@, wrapped_vk@)
            == Some(k@),
        r matches Err(e) ==> pq_recovered(kyber_sk_bytes@, kyber_ciphertext@, wrapped_vk@) is None,
        r matches Err(e) ==> e == (if kyber_sk_bytes@.len() != KYBER_SECRET_KEY_LEN
            || kyber_ciphertext@.len() != KYBER_CIPHERTEXT_LEN {
            CypheriaError::CryptoError
        } else {
            unwrap_error(kyber1024_decapsulate(kyber_sk_bytes@, kyber_ciphertext@), wrapped_vk@)
        }),
{
    let shared_secret = match kyber1024_decap(kyber_sk_bytes, kyber_ciphertext) {
        Some(ss) => ss,
        None => return Err(CypheriaError::CryptoError),
    };
    let mut aes_key = key_from_bytes(shared_secret.as_slice());
    let vault_key = aes::unwrap_key(&aes_key, wrapped_vk)?;
    wipe_array(&mut aes_key);
    Ok(vault_key)
}

/// Checks the post-quantum path of a new header: the ciphertext,
/// decapsulated with the Kyber secret key, gives the shared secret that
/// unwraps `wrapped_vk` to `vault_key`. Kyber-1024 fails this for a fresh
/// encapsulation with a probability of about 2^-174; the error is then the
/// post-quantum check error.
pub fn check_pq_path(kyber_sk_bytes: &[u8], kyber_ciphertext: &[u8], wrapped_vk: &[u8], vault_key: &[u8; 32]) -> (r: Result<
    (),
    CypheriaError,
>)
    ensures
        r is Ok <==> pq_recovered(kyber_sk_bytes@, kyber_ciphertext@, wrapped_vk@) == Some(vault_key@),
        r matches Err(e) ==> e matches CypheriaError::InternalError(s) && s@ == pq_check_error_text(),
{
    match decapsulate_vault_key(kyber_sk_bytes, kyber_ciphertext, wrapped_vk) {
        Ok(k) => {
            let mut k_mut = k;
            let same = ct_eq(&k_mut, vault_key);
            wipe_array(&mut k_mut);
            if same {
                Ok(())
            } else {
                Err(pq_check_error())
            }
        },
        Err(_) => Err(pq_check_error()),
    }
}

/// The post-quantum path gives the vault key back: when the ciphertext
/// decapsulates, under the secret key, to the shared secret that the vault
/// key was wrapped under, the recovery yields that vault key.
pub proof fn lemma_pq_recovers_vault_key(
    kyber_sk: Seq<u8>,
    kyber_ciphertext: Seq<u8>,
    wrapped_vk: Seq<u8>,
    shared_secret: Seq<u8>,
    vault_key: Seq<u8>,
)
    requires
        kyber_sk.len() == KYBER_SECRET_KEY_LEN,
        kyber_ciphertext.len() == KYBER_CIPHERTEXT_LEN,
        vault_key.len() == 32,
        kyber1024_decapsulate(kyber_sk, kyber_ciphertext) == shared_secret,
        sealed(shared_secret, vault_key, wrapped_vk),
    ensures
        pq_recovered(kyber_sk, kyber_ciphertext, wrapped_vk) == Some(vault_key),
{
    aes::lemma_unwrap_wrapped(shared_secret, vault_key, wrapped_vk);
}

} // verus!
