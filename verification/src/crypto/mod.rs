//! Cryptographic primitives. Every use of the cryptographic crates goes
//! through these modules.
//!
//!   rng    — randomness from the operating system
//!   kdf    — Argon2id key derivation and domain-separated subkeys
//!   aes    — AES-256-GCM sealing of blobs and key wrapping
//!   kyber  — Kyber-1024 encapsulation of the vault key
//!   keys   — in-memory key types that wipe themselves when dropped
//!   mac    — HMAC-SHA256 and constant-time comparison
pub mod rng;
pub mod keys;
pub mod aes;
pub mod mac;
pub mod kdf;
pub mod kyber;




