//! The one error type of the library, and the text that is shown for each
//! error (the frontend sees this text only, never internal crypto details).
use vstd::prelude::*;
use crate::text::{decimal, push_decimal, push_str};

verus! {

broadcast use vstd::string::group_string_axioms;

#[derive(Debug)]
pub enum CypheriaError {
    AuthFailed,
    VaultLocked,
    VaultExists,
    VaultNotFound,
    VaultCorrupted,
    CryptoError,
    KdfError,
    EntryNotFound(String),
    NoteNotFound(String),
    InvalidInput(String),
    IoError(String),
    SerdeError,
    RateLimited(u64),
    SessionExpired,
    InternalError(String),
    PersistFailed(String),
}

/// The text shown for an error.
pub open spec fn error_text(e: CypheriaError) -> Seq<char> {
    match e {
        CypheriaError::AuthFailed => "Authentication failed"@,
        CypheriaError::VaultLocked => "Vault is locked"@,
        CypheriaError::VaultExists => "Vault already exists at path"@,
        CypheriaError::VaultNotFound => "Vault file not found"@,
        CypheriaError::VaultCorrupted => "Vault file is corrupted or tampered"@,
        CypheriaError::CryptoError => "Cryptographic operation failed"@,
        CypheriaError::KdfError => "Key derivation failed"@,
        CypheriaError::EntryNotFound(s) => "Entry not found: "@ + s@,
        CypheriaError::NoteNotFound(s) => "Note not found: "@ + s@,
        CypheriaError::InvalidInput(s) => "Invalid input: "@ + s@,
        CypheriaError::IoError(s) => "IO error: "@ + s@,
        CypheriaError::SerdeError => "Serialization error"@,
        CypheriaError::RateLimited(n) => "Maximum unlock attempts exceeded. Try again in "@
            + decimal(n as nat) + " seconds"@,
        CypheriaError::SessionExpired => "Session expired"@,
        CypheriaError::InternalError(s) => "Internal error: "@ + s@,
        CypheriaError::PersistFailed(s) => s@,
    }
}

impl CypheriaError {
    /// The text shown to the user for this error.
    pub fn message(&self) -> (r: String)
        ensures
            r@ == error_text(*self),
    {
        let mut out = String::new();
        match self {
            CypheriaError::AuthFailed => push_str(&mut out, "Authentication failed"),
            CypheriaError::VaultLocked => push_str(&mut out, "Vault is locked"),
            CypheriaError::VaultExists => push_str(&mut out, "Vault already exists at path"),
            CypheriaError::VaultNotFound => push_str(&mut out, "Vault file not found"),
            CypheriaError::VaultCorrupted => push_str(
                &mut out,
                "Vault file is corrupted or tampered",
            ),
            CypheriaError::CryptoError => push_str(&mut out, "Cryptographic operation failed"),
            CypheriaError::KdfError => push_str(&mut out, "Key derivation failed"),
            CypheriaError::EntryNotFound(s) => {
                push_str(&mut out, "Entry not found: ");
                push_str(&mut out, s.as_str());
            },
            CypheriaError::NoteNotFound(s) => {
                push_str(&mut out, "Note not found: ");
                push_str(&mut out, s.as_str());
            },
            CypheriaError::InvalidInput(s) => {
                push_str(&mut out, "Invalid input: ");
                push_str(&mut out, s.as_str());
            },
            CypheriaError::IoError(s) => {
                push_str(&mut out, "IO error: ");
                push_str(&mut out, s.as_str());
            },
            CypheriaError::SerdeError => push_str(&mut out, "Serialization error"),
            CypheriaError::RateLimited(n) => {
                push_str(&mut out, "Maximum unlock attempts exceeded. Try again in ");
                push_decimal(&mut out, *n);
                push_str(&mut out, " seconds");
            },
            CypheriaError::SessionExpired => push_str(&mut out, "Session expired"),
            CypheriaError::InternalError(s) => {
                push_str(&mut out, "Internal error: ");
                push_str(&mut out, s.as_str());
            },
            CypheriaError::PersistFailed(s) => push_str(&mut out, s.as_str()),
        }
        out
    }
}

/// An `InvalidInput` error that carries `msg`.
pub fn invalid_input(msg: &str) -> (e: CypheriaError)
    ensures
        e matches CypheriaError::InvalidInput(s) && s@ == msg@,
{
    let mut s = String::new();
    push_str(&mut s, msg);
    CypheriaError::InvalidInput(s)
}

/// The message when the system clock reads a time before 1970.
pub open spec fn clock_error_text() -> Seq<char> {
    "System clock is set before 1970"@
}

/// The error when the system clock reads a time before 1970.
pub fn clock_error() -> (e: CypheriaError)
    ensures
        e matches CypheriaError::InternalError(s) && s@ == clock_error_text(),
{
    internal_error("System clock is set before 1970")
}

fn internal_error(msg: &str) -> (e: CypheriaError)
    ensures
        e matches CypheriaError::InternalError(s) && s@ == msg@,
{
    let mut s = String::new();
    push_str(&mut s, msg);
    CypheriaError::InternalError(s)
}

/// The message when the operating system's random source fails.
pub open spec fn rng_error_text() -> Seq<char> {
    "Secure random source unavailable"@
}

/// The error when the operating system's random source fails.
pub fn rng_error() -> (e: CypheriaError)
    ensures
        e matches CypheriaError::InternalError(s) && s@ == rng_error_text(),
{
    internal_error("Secure random source unavailable")
}

/// Whether `e` is the error of a failed random source.
pub open spec fn is_rng_error(e: CypheriaError) -> bool {
    e matches CypheriaError::InternalError(s) && s@ == rng_error_text()
}

/// The message when a fresh Kyber encapsulation does not decapsulate to
/// the same shared secret under its own secret key.
pub open spec fn pq_check_error_text() -> Seq<char> {
    "Post-quantum key check failed"@
}

/// The error when a fresh Kyber encapsulation does not decapsulate.
pub fn pq_check_error() -> (e: CypheriaError)
    ensures
        e matches CypheriaError::InternalError(s) && s@ == pq_check_error_text(),
{
    internal_error("Post-quantum key check failed")
}

/// An error that does not depend on the input: the operating system's
/// random source failed, the system clock reads a time before 1970, or a
/// fresh Kyber encapsulation did not decapsulate (which Kyber-1024 allows
/// with a probability of about 2^-174).
pub open spec fn machine_error(e: CypheriaError) -> bool {
    e matches CypheriaError::InternalError(s) && (s@ == rng_error_text() || s@ == clock_error_text()
        || s@ == pq_check_error_text())
}

/// `r` failed because of the machine (see `machine_error`).
pub open spec fn machine_failed<T>(r: Result<T, CypheriaError>) -> bool {
    r matches Err(e) && machine_error(e)
}

/// `r` is a success, or an error that the machine caused.
pub open spec fn ok_unless_machine<T>(r: Result<T, CypheriaError>) -> bool {
    r matches Err(e) ==> machine_error(e)
}

/// The start of the message when changes could not be written to disk.
pub open spec fn persist_failed_prefix() -> Seq<char> {
    "Changes were applied in memory but could not be saved to disk. WARNING: locking the vault will discard these in-memory changes. Error: "@
}

/// The error for a change that was applied in memory but could not be
/// written to the vault file because of `cause`.
pub fn persist_failed(cause: &CypheriaError) -> (e: CypheriaError)
    ensures
        e matches CypheriaError::PersistFailed(s) && s@ == persist_failed_prefix() + error_text(*cause),
{
    let mut s = String::new();
    push_str(
        &mut s,
        "Changes were applied in memory but could not be saved to disk. WARNING: locking the vault will discard these in-memory changes. Error: ",
    );
    let m = cause.message();
    push_str(&mut s, m.as_str());
    CypheriaError::PersistFailed(s)
}

/// The answer of a command that changed the vault, once the vault file
/// was written (`written`): the command's value when the write succeeded,
/// else `PersistFailed` naming the cause (the change stays in memory).
pub fn after_persist<T>(value: T, written: Result<(), CypheriaError>) -> (r: Result<T, CypheriaError>)
    ensures
        written is Ok ==> r == Ok::<T, CypheriaError>(value),
        written matches Err(c) ==> r matches Err(CypheriaError::PersistFailed(s)) && s@ == persist_failed_prefix() + error_text(c),
{
    match written {
        Ok(()) => Ok(value),
        Err(c) => Err(persist_failed(&c)),
    }
}

} // verus!
