//! The errors that the platform's logic reports.

use vstd::prelude::*;

verus! {

/// An application error, with the message shown to the client.
#[derive(Debug, PartialEq, Eq)]
pub enum AppError {
    /// The request's input breaks a rule (HTTP 400).
    Validation(String),
    /// The caller is not authenticated or not allowed (HTTP 401).
    Unauthorized(String),
    /// A requested record does not exist (HTTP 404).
    NotFound(String),
    /// A failure inside the server, such as a password hashing error (HTTP 500).
    Internal(String),
    /// A token that is malformed, badly signed or expired (HTTP 401); the
    /// message is that of the token library.
    Jwt(String),
}

pub type AppResult<T> = Result<T, AppError>;

/// The message an error carries.
pub open spec fn error_text(e: AppError) -> Seq<char> {
    match e {
        AppError::Validation(m) => m@,
        AppError::Unauthorized(m) => m@,
        AppError::NotFound(m) => m@,
        AppError::Internal(m) => m@,
        AppError::Jwt(m) => m@,
    }
}


/// `e` is a validation error with message `msg`.
pub open spec fn is_validation(e: AppError, msg: Seq<char>) -> bool {
    e matches AppError::Validation(m) && m@ == msg
}

/// `e` is an authentication error with message `msg`.
pub open spec fn is_unauthorized(e: AppError, msg: Seq<char>) -> bool {
    e matches AppError::Unauthorized(m) && m@ == msg
}

/// `e` is a not-found error with message `msg`.
pub open spec fn is_not_found(e: AppError, msg: Seq<char>) -> bool {
    e matches AppError::NotFound(m) && m@ == msg
}

} // verus!
