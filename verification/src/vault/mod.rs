//! The vault: its on-disk format, its in-memory state and the operations on
//! entries and notes.
//!
//!   format   — the file format's constants and the stored records
//!   payload  — the JSON text of an entry's or a note's sealed payload
//!   store    — reading and writing the vault file, settings
//!   entry    — entries: add, decrypt, read the password, update (new key)
//!   notes    — notes: add, decrypt, read the content, update (new key)
pub mod format;
pub mod payload;
pub mod entry;
pub mod notes;
pub mod store;
