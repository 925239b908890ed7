//! Cypheria: a password vault whose records are sealed with AES-256-GCM
//! under a key hierarchy rooted in an Argon2id master key, with a
//! Kyber-1024 recovery path for the vault key.
use vstd::prelude::*;

pub mod text;
pub mod error;
pub mod bytes;
pub mod crypto;
pub mod time;
pub mod models;
pub mod vault;
pub mod commands;
pub mod session;
