//! The error taxonomy.

use vstd::prelude::*;

verus! {

/// Why an operation was refused.
#[derive(Clone, Copy, Debug, PartialEq, Eq, Structural)]
pub enum ErrorKind {
    /// The identifier is malformed.
    InvalidIdentifier,
    /// The identifier is well formed but no live row matches it.
    NotFound,
    /// A body or header payload exceeds its configured limit.
    PayloadTooLarge,
    /// Admission was denied.
    RateLimited,
    /// The backing store failed.
    StorageError,
}

/// The HTTP status that reports each kind of error.
pub open spec fn status_of(kind: ErrorKind) -> u16 {
    match kind {
        ErrorKind::InvalidIdentifier => 400,
        ErrorKind::NotFound => 404,
        ErrorKind::PayloadTooLarge => 413,
        ErrorKind::RateLimited => 429,
        ErrorKind::StorageError => 500,
    }
}

impl ErrorKind {
    /// The HTTP status that reports this kind of error.
    pub fn status_code(self) -> (r: u16)
        ensures
            r == status_of(self),
    {
        match self {
            ErrorKind::InvalidIdentifier => 400,
            ErrorKind::NotFound => 404,
            ErrorKind::PayloadTooLarge => 413,
            ErrorKind::RateLimited => 429,
            ErrorKind::StorageError => 500,
        }
    }
}

/// An error together with the message shown to the caller.
#[derive(Clone, Debug)]
pub struct ApiError {
    pub kind: ErrorKind,
    pub message: String,
}

impl ApiError {
    /// The HTTP status that reports this error.
    pub fn status_code(&self) -> (r: u16)
        ensures
            r == status_of(self.kind),
    {
        self.kind.status_code()
    }
}

/// Whether `r` is the error of kind `kind` with the message `message`.
pub open spec fn fails_with<T>(r: Result<T, ApiError>, kind: ErrorKind, message: Seq<char>) -> bool {
    r is Err && r->Err_0.kind == kind && r->Err_0.message@ == message
}

/// A backing-store failure with the given message.
pub fn internal_error(message: String) -> (r: ApiError)
    ensures
        r.kind == ErrorKind::StorageError,
        r.message == message,
{
    ApiError { kind: ErrorKind::StorageError, message }
}

/// A missing row with the given message.
pub fn not_found_error(message: String) -> (r: ApiError)
    ensures
        r.kind == ErrorKind::NotFound,
        r.message == message,
{
    ApiError { kind: ErrorKind::NotFound, message }
}

/// A malformed identifier with the given message.
pub fn bad_request_error(message: String) -> (r: ApiError)
    ensures
        r.kind == ErrorKind::InvalidIdentifier,
        r.message == message,
{
    ApiError { kind: ErrorKind::InvalidIdentifier, message }
}

/// An oversized payload with the given message.
pub fn payload_too_large_error(message: String) -> (r: ApiError)
    ensures
        r.kind == ErrorKind::PayloadTooLarge,
        r.message == message,
{
    ApiError { kind: ErrorKind::PayloadTooLarge, message }
}

} // verus!
