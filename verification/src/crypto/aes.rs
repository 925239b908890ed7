//! AES-256-GCM authenticated encryption.
//!
//! Every sealed blob has the layout `nonce(12) || ciphertext || tag(16)`; the
//! nonce is random and prepended, so each blob is self-contained. The tag
//! makes any change to the ciphertext or tag fail decryption.
use vstd::prelude::*;
use aes_gcm::aead::Aead;
use aes_gcm::{Aes256Gcm, Key, KeyInit, Nonce};
use crate::bytes::{append_bytes, copy_range};
use crate::crypto::keys::wipe_vec;
use crate::crypto::rng::aes_nonce;
use crate::error::{is_rng_error, ok_unless_machine, CypheriaError};

verus! {

pub const NONCE_LEN: usize = 12;
pub const TAG_LEN: usize = 16;

/// Length of the shortest blob: a nonce and a tag around an empty ciphertext.
pub const MIN_BLOB_LEN: usize = 28;

/// The longest plaintext that aes-gcm accepts (2^36 bytes).
pub const MAX_PLAINTEXT_LEN: u64 = 68719476736;

/// AES-256-GCM encryption of `plaintext` under `key` and `nonce`, with no
/// associated data: the ciphertext followed by the 16-byte tag.
pub uninterp spec fn aes256_gcm_seal(key: Seq<u8>, nonce: Seq<u8>, plaintext: Seq<u8>) -> Seq<u8>;

/// AES-256-GCM decryption of `ciphertext` (tag included) under `key` and
/// `nonce`, with no associated data: the plaintext when the tag verifies.
pub uninterp spec fn aes256_gcm_open(key: Seq<u8>, nonce: Seq<u8>, ciphertext: Seq<u8>) -> Option<Seq<u8>>;

/// Calls `Aead::encrypt` of `Aes256Gcm`. As the aes-gcm source shows, it
/// fails exactly when the plaintext is longer than 2^36 bytes; otherwise the
/// output is the ciphertext (as long as the plaintext) followed by a 16-byte
/// tag, and decryption of that output under the same key and nonce gives the
/// plaintext back.
#[verifier::external_body]
fn gcm_seal(key: &[u8; 32], nonce: &[u8; 12], plaintext: &[u8]) -> (r: Option<Vec<u8>>)
    ensures
        r is Some <==> plaintext@.len() <= MAX_PLAINTEXT_LEN,
        r matches Some(c) ==> c@ == aes256_gcm_seal(key@, nonce@, plaintext@),
        r matches Some(c) ==> c@.len() == plaintext@.len() + 16,
        r matches Some(c) ==> aes256_gcm_open(key@, nonce@, c@) == Some(plaintext@),
{
    let cipher = Aes256Gcm::new(Key::<Aes256Gcm>::from_slice(key));
    cipher.encrypt(Nonce::from_slice(nonce), plaintext).ok()
}

/// Calls `Aead::decrypt` of `Aes256Gcm`: the plaintext when the tag
/// verifies, nothing otherwise. As the aes-gcm source shows, the plaintext
/// is the input without its 16-byte tag, so it is 16 bytes shorter.
#[verifier::external_body]
fn gcm_open(key: &[u8; 32], nonce: &[u8; 12], ciphertext: &[u8]) -> (r: Option<Vec<u8>>)
    ensures
        r matches Some(p) ==> aes256_gcm_open(key@, nonce@, ciphertext@) == Some(p@),
        r is None ==> aes256_gcm_open(key@, nonce@, ciphertext@) is None,
        r matches Some(p) ==> p@.len() + 16 == ciphertext@.len(),
{
    let cipher = Aes256Gcm::new(Key::<Aes256Gcm>::from_slice(key));
    cipher.decrypt(Nonce::from_slice(nonce), ciphertext).ok()
}

/// `blob` is `plaintext` sealed under `key`: a nonce, then the AES-GCM
/// output for that nonce, which opens to `plaintext` again.
pub open spec fn sealed(key: Seq<u8>, plaintext: Seq<u8>, blob: Seq<u8>) -> bool {
    &&& blob.len() == plaintext.len() + MIN_BLOB_LEN
    &&& blob.skip(12) == aes256_gcm_seal(key, blob.take(12), plaintext)
    &&& aes256_gcm_open(key, blob.take(12), blob.skip(12)) == Some(plaintext)
}

/// What a blob opens to under `key`: nothing if it is shorter than a nonce
/// and a tag, else the AES-GCM decryption of its tail under its nonce.
pub open spec fn open_blob(key: Seq<u8>, blob: Seq<u8>) -> Option<Seq<u8>> {
    if blob.len() < MIN_BLOB_LEN {
        None
    } else {
        aes256_gcm_open(key, blob.take(12), blob.skip(12))
    }
}

/// The error of a blob that does not open: too short, or a tag that fails.
pub open spec fn open_error(blob: Seq<u8>) -> CypheriaError {
    if blob.len() < MIN_BLOB_LEN {
        CypheriaError::VaultCorrupted
    } else {
        CypheriaError::CryptoError
    }
}

/// A wrapped key opens to exactly 32 bytes.
pub open spec fn unwrapped(key: Seq<u8>, blob: Seq<u8>) -> Option<Seq<u8>> {
    match open_blob(key, blob) {
        Some(p) => if p.len() == 32 {
            Some(p)
        } else {
            None
        },
        None => None,
    }
}

/// The error of a wrapped key that does not unwrap.
pub open spec fn unwrap_error(key: Seq<u8>, blob: Seq<u8>) -> CypheriaError {
    match open_blob(key, blob) {
        Some(p) => CypheriaError::VaultCorrupted,
        None => open_error(blob),
    }
}

/// Encrypts `plaintext` under `key` with a fresh random nonce.
///
/// The output is `nonce(12) || ciphertext || tag(16)`, always 28 bytes
/// longer than the input. It fails for plaintexts over 2^36 bytes, and when
/// the operating system cannot supply a nonce.
pub fn encrypt(key: &[u8; 32], plaintext: &[u8]) -> (r: Result<Vec<u8>, CypheriaError>)
    ensures
        r is Ok ==> plaintext@.len() <= MAX_PLAINTEXT_LEN,
        plaintext@.len() <= MAX_PLAINTEXT_LEN ==> ok_unless_machine(r),
        r matches Ok(b) ==> sealed(key@, plaintext@, b@),
        r matches Err(e) ==> e == CypheriaError::CryptoError || is_rng_error(e),
{
    let nonce = aes_nonce()?;
    match gcm_seal(key, &nonce, plaintext) {
        Some(mut ciphertext) => {
            let mut output: Vec<u8> = Vec::new();
            append_bytes(&mut output, &nonce);
            append_bytes(&mut output, ciphertext.as_slice());
            proof {
                assert(output@.take(12) =~= nonce@);
                assert(output@.skip(12) =~= ciphertext@);
            }
            Ok(output)
        },
        None => Err(CypheriaError::CryptoError),
    }
}

/// Decrypts a blob `nonce(12) || ciphertext || tag(16)`.
///
/// A blob shorter than 28 bytes is `VaultCorrupted`; a tag that does not
/// verify (wrong key or tampering) is `CryptoError`.
pub fn decrypt(key: &[u8; 32], blob: &[u8]) -> (r: Result<Vec<u8>, CypheriaError>)
    ensures
        r matches Ok(p) ==> open_blob(key@, blob@) == Some(p@),
        r matches Ok(p) ==> p@.len() + MIN_BLOB_LEN == blob@.len(),
        r matches Err(e) ==> open_blob(key@, blob@) is None && e == open_error(blob@),
{
    if blob.len() < MIN_BLOB_LEN {
        return Err(CypheriaError::VaultCorrupted);
    }
    let mut nonce = [0u8; 12];
    for i in 0..12
        invariant
            blob@.len() >= MIN_BLOB_LEN,
            forall|j: int| 0 <= j < i ==> nonce@[j] == blob@[j],
    {
        nonce[i] = blob[i];
    }
    assert(nonce@ =~= blob@.take(12));
    let ciphertext = copy_range(blob, 12, blob.len());
    assert(ciphertext@ =~= blob@.skip(12));
    match gcm_open(key, &nonce, ciphertext.as_slice()) {
        Some(p) => Ok(p),
        None => Err(CypheriaError::CryptoError),
    }
}

/// Wraps a 32-byte key under another 32-byte key (the vault key under the
/// master key, an entry key under the vault key).
pub fn wrap_key(wrapping_key: &[u8; 32], key_to_wrap: &[u8; 32]) -> (r: Result<
    Vec<u8>,
    CypheriaError,
>)
    ensures
        r matches Ok(b) ==> sealed(wrapping_key@, key_to_wrap@, b@),
        r matches Err(e) ==> is_rng_error(e),
{
    encrypt(wrapping_key, key_to_wrap)
}

/// Unwraps a wrapped 32-byte key. A wrong wrapping key fails the tag check
/// (`CryptoError`); a blob that opens to other than 32 bytes is
/// `VaultCorrupted`.
pub fn unwrap_key(wrapping_key: &[u8; 32], wrapped_blob: &[u8]) -> (r: Result<
    [u8; 32],
    CypheriaError,
>)
    ensures
        r matches Ok(k) ==> unwrapped(wrapping_key@, wrapped_blob@) == Some(k@),
        r matches Err(e) ==> unwrapped(wrapping_key@, wrapped_blob@) is None && e
            == unwrap_error(wrapping_key@, wrapped_blob@),
{
    let mut plaintext = decrypt(wrapping_key, wrapped_blob)?;
    if plaintext.len() != 32 {
        wipe_vec(&mut plaintext);
        return Err(CypheriaError::VaultCorrupted);
    }
    let mut key = [0u8; 32];
    for i in 0..32
        invariant
            plaintext@.len() == 32,
            forall|j: int| 0 <= j < i ==> key@[j] == plaintext@[j],
    {
        key[i] = plaintext[i];
    }
    assert(key@ =~= plaintext@);
    wipe_vec(&mut plaintext);
    Ok(key)
}

/// A blob that `encrypt` produced opens to the plaintext it sealed.
pub proof fn lemma_open_sealed(key: Seq<u8>, plaintext: Seq<u8>, blob: Seq<u8>)
    requires
        sealed(key, plaintext, blob),
    ensures
        open_blob(key, blob) == Some(plaintext),
{
}

/// A key that `wrap_key` wrapped unwraps to the same key.
pub proof fn lemma_unwrap_wrapped(wrapping_key: Seq<u8>, key: Seq<u8>, blob: Seq<u8>)
    requires
        key.len() == 32,
        sealed(wrapping_key, key, blob),
    ensures
        unwrapped(wrapping_key, blob) == Some(key),
{
}

} // verus!
