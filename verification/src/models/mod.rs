//! Data passed across the command boundary. These types never hold raw key
//! bytes or undecrypted vault internals.
//!
//!   entry     — EntryInput (from the frontend), EntryView (password left out),
//!               GenOptions, EntryScoreView
//!   note      — NoteInput, NoteView (content left out), NoteContentView
//!   settings  — Settings, the user's preferences
pub mod entry;
pub mod note;
pub mod settings;
