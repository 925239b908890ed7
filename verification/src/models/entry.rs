use vstd::prelude::*;

verus! {

/// Input from the frontend for adding or updating an entry.
#[derive(Debug)]
pub struct EntryInput {
    pub name: String,
    pub username: String,
    pub password: String,
    pub website: String,
    pub notes: String,
    pub is_favorite: Option<bool>,
    pub category: Option<String>,
    pub color: Option<String>,
    pub emoji: Option<String>,
}

/// A decrypted entry as sent to the frontend. It has no password field:
/// the password is fetched by a separate, explicit request.
#[derive(Debug)]
pub struct EntryView {
    pub id: String,
    pub created_at: String,
    pub updated_at: String,
    pub is_favorite: bool,
    pub category: String,
    pub color: String,
    pub emoji: String,
    pub name: String,
    pub username: String,
    pub website: String,
    pub notes: String,
    /// Always true: the password must be fetched separately.
    pub password_masked: bool,
}

/// Password generator options from the frontend.
#[derive(Debug)]
pub struct GenOptions {
    pub length: usize,
    pub upper: bool,
    pub lower: bool,
    pub numbers: bool,
    pub symbols: bool,
}

/// Password health of one entry.
#[derive(Debug)]
pub struct EntryScoreView {
    pub id: String,
    pub score: u8,
    pub has_password: bool,
    /// Truncated HMAC tag (32 bits) for finding duplicate passwords.
    pub dup_tag: String,
    pub days_since_update: u64,
}

} // verus!
