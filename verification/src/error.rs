//! The errors that the HTTP layer turns into JSON error responses.

use vstd::prelude::*;
use crate::text::{concat_str, owned};

verus! {

/// An error answered to an API client; each maps to a code and an HTTP status.
#[derive(Debug, Clone, PartialEq, Eq)]
pub enum AppError {
    Validation(String),
    InvalidCredentials,
    Unauthorized,
    Forbidden,
    NotFound,
    Conflict(String),
    RateLimited,
    /// An internal failure; its detail is logged, never shown to the client.
    Internal(String),
    /// A database failure; its detail is logged, never shown to the client.
    Db(String),
}

/// The machine-readable code and HTTP status of each error.
pub open spec fn spec_code_status(e: AppError) -> (Seq<char>, u16) {
    match e {
        AppError::Validation(_) => ("VALIDATION_FAILED"@, 400),
        AppError::InvalidCredentials => ("INVALID_CREDENTIALS"@, 401),
        AppError::Unauthorized => ("UNAUTHORIZED"@, 401),
        AppError::Forbidden => ("FORBIDDEN"@, 403),
        AppError::NotFound => ("NOT_FOUND"@, 404),
        AppError::Conflict(_) => ("CONFLICT"@, 409),
        AppError::RateLimited => ("RATE_LIMITED"@, 429),
        AppError::Internal(_) => ("INTERNAL"@, 500),
        AppError::Db(_) => ("INTERNAL"@, 500),
    }
}

/// The text of each error (its display form).
pub open spec fn spec_error_text(e: AppError) -> Seq<char> {
    match e {
        AppError::Validation(m) => "validation failed: "@ + m@,
        AppError::InvalidCredentials => "invalid credentials"@,
        AppError::Unauthorized => "unauthorized"@,
        AppError::Forbidden => "forbidden"@,
        AppError::NotFound => "not found"@,
        AppError::Conflict(m) => "conflict: "@ + m@,
        AppError::RateLimited => "rate limited"@,
        AppError::Internal(m) => "internal: "@ + m@,
        AppError::Db(m) => "database: "@ + m@,
    }
}

/// The message a client sees: the error text, except that internal and
/// database failures read `internal server error`.
pub open spec fn spec_public_message(e: AppError) -> Seq<char> {
    match e {
        AppError::Internal(_) => "internal server error"@,
        AppError::Db(_) => "internal server error"@,
        _ => spec_error_text(e),
    }
}

impl AppError {
    /// The error code and HTTP status of this error.
    pub fn code_status(&self) -> (r: (&'static str, u16))
        ensures
            (r.0@, r.1) == spec_code_status(*self),
    {
        match self {
            AppError::Validation(_) => ("VALIDATION_FAILED", 400),
            AppError::InvalidCredentials => ("INVALID_CREDENTIALS", 401),
            AppError::Unauthorized => ("UNAUTHORIZED", 401),
            AppError::Forbidden => ("FORBIDDEN", 403),
            AppError::NotFound => ("NOT_FOUND", 404),
            AppError::Conflict(_) => ("CONFLICT", 409),
            AppError::RateLimited => ("RATE_LIMITED", 429),
            AppError::Internal(_) => ("INTERNAL", 500),
            AppError::Db(_) => ("INTERNAL", 500),
        }
    }

    /// The display text of this error.
    pub fn text(&self) -> (r: String)
        ensures
            r@ == spec_error_text(*self),
    {
        match self {
            AppError::Validation(m) => concat_str("validation failed: ", m.as_str()),
            AppError::InvalidCredentials => owned("invalid credentials"),
            AppError::Unauthorized => owned("unauthorized"),
            AppError::Forbidden => owned("forbidden"),
            AppError::NotFound => owned("not found"),
            AppError::Conflict(m) => concat_str("conflict: ", m.as_str()),
            AppError::RateLimited => owned("rate limited"),
            AppError::Internal(m) => concat_str("internal: ", m.as_str()),
            AppError::Db(m) => concat_str("database: ", m.as_str()),
        }
    }

    /// The message shown to the client.
    pub fn public_message(&self) -> (r: String)
        ensures
            r@ == spec_public_message(*self),
    {
        match self {
            AppError::Internal(_) => owned("internal server error"),
            AppError::Db(_) => owned("internal server error"),
            _ => self.text(),
        }
    }
}

/// A validation error with the given message.
pub fn validation(msg: &str) -> (e: AppError)
    ensures
        e matches AppError::Validation(m) && m@ == msg@,
{
    AppError::Validation(owned(msg))
}

} // verus!
