//! The error taxonomy of the service: database failures are surfaced as an
//! opaque server error, bad requests with their own message.
use vstd::prelude::*;

verus! {

/// A request-level failure.
#[derive(Debug)]
pub enum AppError {
    /// The SQL executor failed; the payload is its rendered error, which is
    /// logged but never shown to the caller.
    Database(String),
    /// A database-adjacent failure reported with a caller-visible message.
    DatabaseError(String),
    /// The request itself is malformed.
    BadRequest(String),
}

impl AppError {
    /// The HTTP-equivalent status code of this error.
    pub fn status_code(&self) -> (r: u16)
        ensures
            r == (match *self {
                AppError::Database(_) => 500u16,
                AppError::DatabaseError(_) => 500u16,
                AppError::BadRequest(_) => 400u16,
            }),
    {
        match self {
            AppError::Database(_) => 500,
            AppError::DatabaseError(_) => 500,
            AppError::BadRequest(_) => 400,
        }
    }

    /// The caller-visible message: database failures are masked behind a
    /// generic message, the other kinds carry their own.
    pub fn public_message(&self) -> (r: String)
        ensures
            r@ == (match *self {
                AppError::Database(_) => "Database error occurred"@,
                AppError::DatabaseError(m) => m@,
                AppError::BadRequest(m) => m@,
            }),
    {
        match self {
            AppError::Database(_) => String::from_str("Database error occurred"),
            AppError::DatabaseError(m) => m.clone(),
            AppError::BadRequest(m) => m.clone(),
        }
    }
}

} // verus!
