//! The failures that the application reports, and how they show to a
//! caller over HTTP.

use crate::text::{joined, owned};
use vstd::prelude::*;

verus! {

/// A failure of the application. Failures that come from outside carry the
/// text of the outside error.
#[derive(Debug)]
pub enum AppError {
    Anyhow(String),
    Sqlx(String),
    Migration(String),
    Redis(String),
    Reqwest(String),
    SerdeJson(String),
    Validation(String),
    NostrClient(String),
    Auth(String),
    Unauthorized(String),
    Forbidden(String),
    NotFound(String),
    BadRequest(String),
    Conflict(String),
    Internal(String),
    SabiWallet(String),
}

/// The HTTP status of a failure.
pub open spec fn status_of(e: AppError) -> u16 {
    match e {
        AppError::Sqlx(_) => 500,
        AppError::Migration(_) => 500,
        AppError::Redis(_) => 500,
        AppError::Reqwest(_) => 500,
        AppError::SerdeJson(_) => 400,
        AppError::Validation(_) => 422,
        AppError::NostrClient(_) => 500,
        AppError::Auth(_) => 401,
        AppError::Unauthorized(_) => 401,
        AppError::Forbidden(_) => 403,
        AppError::NotFound(_) => 404,
        AppError::BadRequest(_) => 400,
        AppError::Conflict(_) => 409,
        AppError::Internal(_) => 500,
        AppError::Anyhow(_) => 500,
        AppError::SabiWallet(_) => 400,
    }
}

/// The message that a caller sees for a failure: a fixed text for failures
/// that come from outside, the text of the failure otherwise.
pub open spec fn message_of(e: AppError) -> Seq<char> {
    match e {
        AppError::Sqlx(_) => "Database error"@,
        AppError::Migration(_) => "Database migration error"@,
        AppError::Redis(_) => "Redis error"@,
        AppError::Reqwest(_) => "External service error"@,
        AppError::SerdeJson(_) => "Invalid JSON payload"@,
        AppError::Validation(m) => "Validation error: "@ + m@,
        AppError::NostrClient(_) => "Nostr related error"@,
        AppError::Auth(m) => m@,
        AppError::Unauthorized(m) => m@,
        AppError::Forbidden(m) => m@,
        AppError::NotFound(m) => m@,
        AppError::BadRequest(m) => m@,
        AppError::Conflict(m) => m@,
        AppError::Internal(m) => m@,
        AppError::Anyhow(_) => "An unexpected error occurred"@,
        AppError::SabiWallet(m) => m@,
    }
}

/// Whether a failure is written to the log before it is answered.
pub open spec fn is_logged(e: AppError) -> bool {
    match e {
        AppError::Sqlx(_) => true,
        AppError::Migration(_) => true,
        AppError::Redis(_) => true,
        AppError::Reqwest(_) => true,
        AppError::SerdeJson(_) => true,
        AppError::NostrClient(_) => true,
        AppError::Internal(_) => true,
        AppError::Anyhow(_) => true,
        _ => false,
    }
}

impl AppError {
    /// The HTTP status of the failure.
    pub fn status_code(&self) -> (code: u16)
        ensures
            code == status_of(*self),
    {
        match self {
            AppError::Sqlx(_) => 500,
            AppError::Migration(_) => 500,
            AppError::Redis(_) => 500,
            AppError::Reqwest(_) => 500,
            AppError::SerdeJson(_) => 400,
            AppError::Validation(_) => 422,
            AppError::NostrClient(_) => 500,
            AppError::Auth(_) => 401,
            AppError::Unauthorized(_) => 401,
            AppError::Forbidden(_) => 403,
            AppError::NotFound(_) => 404,
            AppError::BadRequest(_) => 400,
            AppError::Conflict(_) => 409,
            AppError::Internal(_) => 500,
            AppError::Anyhow(_) => 500,
            AppError::SabiWallet(_) => 400,
        }
    }

    /// The message that a caller sees.
    pub fn public_message(&self) -> (message: String)
        ensures
            message@ == message_of(*self),
    {
        match self {
            AppError::Sqlx(_) => owned("Database error"),
            AppError::Migration(_) => owned("Database migration error"),
            AppError::Redis(_) => owned("Redis error"),
            AppError::Reqwest(_) => owned("External service error"),
            AppError::SerdeJson(_) => owned("Invalid JSON payload"),
            AppError::Validation(m) => joined("Validation error: ", m.as_str()),
            AppError::NostrClient(_) => owned("Nostr related error"),
            AppError::Auth(m) => m.clone(),
            AppError::Unauthorized(m) => m.clone(),
            AppError::Forbidden(m) => m.clone(),
            AppError::NotFound(m) => m.clone(),
            AppError::BadRequest(m) => m.clone(),
            AppError::Conflict(m) => m.clone(),
            AppError::Internal(m) => m.clone(),
            AppError::Anyhow(_) => owned("An unexpected error occurred"),
            AppError::SabiWallet(m) => m.clone(),
        }
    }

    /// Whether the failure is written to the log before it is answered.
    pub fn should_log(&self) -> (logged: bool)
        ensures
            logged == is_logged(*self),
    {
        match self {
            AppError::Sqlx(_) => true,
            AppError::Migration(_) => true,
            AppError::Redis(_) => true,
            AppError::Reqwest(_) => true,
            AppError::SerdeJson(_) => true,
            AppError::NostrClient(_) => true,
            AppError::Internal(_) => true,
            AppError::Anyhow(_) => true,
            _ => false,
        }
    }
}

} // verus!
