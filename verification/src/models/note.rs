use vstd::prelude::*;

verus! {

/// Input from the frontend for adding or updating a note.
#[derive(Debug)]
pub struct NoteInput {
    pub title: String,
    pub content: String,
}

/// Note metadata for the notes grid; the content is left out and fetched
/// separately.
#[derive(Debug)]
pub struct NoteView {
    pub id: String,
    pub created_at: String,
    pub updated_at: String,
    pub title: String,
    /// Always true: the content must be fetched separately.
    pub content_masked: bool,
}

/// A full note, returned only on an explicit request.
#[derive(Debug)]
pub struct NoteContentView {
    pub id: String,
    pub title: String,
    pub content: String,
}

} // verus!
