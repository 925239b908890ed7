use cypheria::crypto::aes::{decrypt, encrypt, unwrap_key, wrap_key};
use cypheria::crypto::kdf::{derive_master_key, derive_master_key_with_params, derive_subkey};
use cypheria::crypto::kyber::{decapsulate_vault_key, encapsulate_vault_key, generate_keypair};
use cypheria::crypto::rng::{aes_nonce, argon2_salt, entry_key};
use cypheria::error::CypheriaError;
use cypheria::vault::store::verify_vault_hmac;
use hmac::{Hmac, Mac};
use sha2::{Digest, Sha256};

fn test_key() -> [u8; 32] {
    [0x42_u8; 32]
}

#[test]
fn test_encrypt_decrypt_roundtrip() {
    let key = test_key();
    let plaintext = b"Hello, Cypheria!";
    let ciphertext = encrypt(&key, plaintext).unwrap();
    let decrypted = decrypt(&key, &ciphertext).unwrap();
    assert_eq!(decrypted, plaintext);
}

#[test]
fn test_encrypt_decrypt_empty_plaintext() {
    let key = test_key();
    let ciphertext = encrypt(&key, b"").unwrap();
    let decrypted = decrypt(&key, &ciphertext).unwrap();
    assert_eq!(decrypted, b"");
}

#[test]
fn test_tampered_ciphertext_fails() {
    let key = test_key();
    let plaintext = b"Secret data";
    let mut ciphertext = encrypt(&key, plaintext).unwrap();
    ciphertext[15] ^= 0xFF;
    assert!(decrypt(&key, &ciphertext).is_err(), "Tampered ciphertext must fail");
}

#[test]
fn test_wrong_key_fails() {
    let key1 = [0x11_u8; 32];
    let key2 = [0x22_u8; 32];
    let ciphertext = encrypt(&key1, b"secret").unwrap();
    assert!(decrypt(&key2, &ciphertext).is_err(), "Wrong key must fail");
}

#[test]
fn test_wrap_unwrap_key() {
    let wrapping_key = [0xAA_u8; 32];
    let key_to_wrap = [0xBB_u8; 32];
    let wrapped = wrap_key(&wrapping_key, &key_to_wrap).unwrap();
    let unwrapped = unwrap_key(&wrapping_key, &wrapped).unwrap();
    assert_eq!(unwrapped, key_to_wrap);
}

#[test]
fn test_nonces_are_unique() {
    let key = test_key();
    let ct1 = encrypt(&key, b"same plaintext").unwrap();
    let ct2 = encrypt(&key, b"same plaintext").unwrap();
    assert_ne!(&ct1[..12], &ct2[..12], "Each encryption must use a unique nonce");
}

#[test]
fn test_blob_too_short_rejected() {
    let key = test_key();
    let short_blob = [0u8; 10];
    assert!(decrypt(&key, &short_blob).is_err());
}

#[test]
fn test_derive_master_key_deterministic() {
    let password = b"test_password_42";
    let salt = [0xAB_u8; 32];
    let key1 = derive_master_key(password, &salt).unwrap();
    let key2 = derive_master_key(password, &salt).unwrap();
    assert_eq!(key1, key2, "Same password+salt must produce same key");
}

#[test]
fn test_derive_master_key_different_salts() {
    let password = b"test_password";
    let salt1 = [0x01_u8; 32];
    let salt2 = [0x02_u8; 32];
    let key1 = derive_master_key(password, &salt1).unwrap();
    let key2 = derive_master_key(password, &salt2).unwrap();
    assert_ne!(key1, key2, "Different salts must produce different keys");
}

#[test]
fn test_derive_subkey_domain_separation() {
    let mk = [0x42_u8; 32];
    let mut out1 = [0u8; 32];
    let mut out2 = [0u8; 32];
    derive_subkey(&mk, b"DOMAIN_A", &mut out1);
    derive_subkey(&mk, b"DOMAIN_B", &mut out2);
    assert_ne!(out1, out2, "Different domains must produce different subkeys");
}

#[test]
fn test_derive_subkey_deterministic() {
    let mk = [0x99_u8; 32];
    let mut out1 = [0u8; 32];
    let mut out2 = [0u8; 32];
    derive_subkey(&mk, b"HMAC_VAULT_INTEGRITY", &mut out1);
    derive_subkey(&mk, b"HMAC_VAULT_INTEGRITY", &mut out2);
    assert_eq!(out1, out2);
}

#[test]
fn test_encapsulate_decapsulate_roundtrip() {
    let kp = generate_keypair();
    let vault_key = [0xDE_u8; 32];
    let (ciphertext, wrapped_vk) = encapsulate_vault_key(&kp.public_key, &vault_key).unwrap();
    let recovered = decapsulate_vault_key(&kp.secret_key, &ciphertext, &wrapped_vk).unwrap();
    assert_eq!(recovered, vault_key, "Decapsulated VK must match original");
}

#[test]
fn test_wrong_secret_key_fails() {
    let kp1 = generate_keypair();
    let kp2 = generate_keypair();
    let vault_key = [0xAB_u8; 32];
    let (ciphertext, wrapped_vk) = encapsulate_vault_key(&kp1.public_key, &vault_key).unwrap();
    let result = decapsulate_vault_key(&kp2.secret_key, &ciphertext, &wrapped_vk);
    assert!(result.is_err(), "Wrong secret key must not recover the vault key");
}

// ── Further cases ───────────────────────────────────────────────────────────

#[test]
fn sealed_blob_layout_is_nonce_ciphertext_tag() {
    let blob = encrypt(&test_key(), b"abc").unwrap();
    assert_eq!(blob.len(), 3 + 28);
}

#[test]
fn short_blob_is_corrupted_and_bad_tag_is_crypto_error() {
    let key = test_key();
    assert!(matches!(decrypt(&key, &[0u8; 27]), Err(CypheriaError::VaultCorrupted)));
    assert!(matches!(decrypt(&key, &[0u8; 28]), Err(CypheriaError::CryptoError)));
}

#[test]
fn unwrapping_a_non_key_is_corrupted() {
    let key = test_key();
    let blob = encrypt(&key, &[7u8; 31]).unwrap();
    assert!(matches!(unwrap_key(&key, &blob), Err(CypheriaError::VaultCorrupted)));
}

#[test]
fn master_key_depends_on_password() {
    let salt = [0x05_u8; 32];
    let k1 = derive_master_key_with_params(b"password-one", &salt, 64, 1, 1).unwrap();
    let k2 = derive_master_key_with_params(b"password-two", &salt, 64, 1, 1).unwrap();
    assert_ne!(k1, k2);
}

#[test]
fn bad_argon2_parameters_are_kdf_errors() {
    let salt = [0x05_u8; 32];
    assert!(matches!(derive_master_key_with_params(b"pw", &salt, 64, 0, 1), Err(CypheriaError::KdfError)));
    assert!(matches!(derive_master_key_with_params(b"pw", &salt, 7, 1, 1), Err(CypheriaError::KdfError)));
    assert!(matches!(derive_master_key_with_params(b"pw", &salt, 64, 1, 0), Err(CypheriaError::KdfError)));
    assert!(matches!(derive_master_key_with_params(b"pw", &salt, 64, 1, 9), Err(CypheriaError::KdfError)));
    assert!(matches!(derive_master_key_with_params(b"pw", &salt, 64, 1, 0x0100_0000), Err(CypheriaError::KdfError)));
}

#[test]
fn subkey_depends_on_master_key() {
    let mut a = [0u8; 32];
    let mut b = [0u8; 32];
    derive_subkey(&[1u8; 32], b"SETTINGS_ENCRYPTION_VK", &mut a);
    derive_subkey(&[2u8; 32], b"SETTINGS_ENCRYPTION_VK", &mut b);
    assert_ne!(a, b);
}

#[test]
fn subkey_is_the_sha256_of_prefix_domain_and_key() {
    let mk = [0x5a_u8; 32];
    let mut out = [0u8; 32];
    derive_subkey(&mk, b"PWD_DUP_DETECTION", &mut out);
    let mut h = Sha256::new();
    h.update(b"CYPHERIA_SUBKEY_v1|PWD_DUP_DETECTION|");
    h.update(mk);
    let expected: [u8; 32] = h.finalize().into();
    assert_eq!(out, expected);
}

#[test]
fn vault_hmac_is_checked() {
    let key = [0x33_u8; 32];
    let mut mac = <Hmac<Sha256> as Mac>::new_from_slice(&key).unwrap();
    mac.update(b"covered bytes");
    let tag = mac.finalize().into_bytes().to_vec();
    assert!(verify_vault_hmac(b"covered bytes", &tag, &key).is_ok());
    let mut bad = tag.clone();
    bad[0] ^= 1;
    assert!(matches!(verify_vault_hmac(b"covered bytes", &bad, &key), Err(CypheriaError::VaultCorrupted)));
    assert!(matches!(verify_vault_hmac(b"covered bytes", &tag[..31], &key), Err(CypheriaError::VaultCorrupted)));
    assert!(matches!(verify_vault_hmac(b"other bytes", &tag, &key), Err(CypheriaError::VaultCorrupted)));
}

#[test]
fn random_material_has_its_size_and_differs() {
    assert_eq!(aes_nonce().unwrap().len(), 12);
    assert_ne!(argon2_salt().unwrap(), argon2_salt().unwrap());
    assert_ne!(entry_key().unwrap(), entry_key().unwrap());
}

#[test]
fn encapsulation_needs_a_full_public_key() {
    assert!(matches!(encapsulate_vault_key(&[0u8; 10], &[1u8; 32]), Err(CypheriaError::CryptoError)));
}
