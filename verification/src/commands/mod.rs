//! The logic of the commands that the frontend invokes. Every command must
//! touch vault data only while the session is unlocked, validate untrusted
//! input before any processing, and never expose passwords, key bytes or
//! plaintext credentials except where a command exists for that purpose.
//!
//!   ids            — entry and note identifiers (UUID v4)
//!   reveal_tokens  — one-use tokens that stand in for a revealed password
//!   generator      — the password generator (rejection sampling)
//!   entries        — list, reveal, add, update, delete, favorite, scores
//!   notes          — list, read, save, delete
//!   auth           — creating a vault, changing the master password
//!   settings       — reading and saving the sealed settings
//!   clipboard      — copying a password, the clearing delay, noise
//!   vault_mgmt     — checking a vault file, header metadata, export checks
//!   vault_path     — the record of the last opened vault path
pub mod ids;
pub mod reveal_tokens;
pub mod generator;
pub mod entries;
pub mod notes;
pub mod auth;
pub mod settings;
pub mod clipboard;
pub mod vault_mgmt;
pub mod vault_path;
