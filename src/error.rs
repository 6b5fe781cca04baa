//! The error kinds that every service maps to an HTTP status and a message
//! at its API boundary.
use vstd::prelude::*;

verus! {

/// What went wrong, as seen by a client.
#[derive(Debug, Clone, Copy, PartialEq, Eq, Structural)]
pub enum ApiError {
    /// The payload failed validation.
    BadRequest,
    /// The bearer token was absent, malformed, forged or expired.
    Unauthorized,
    /// A user with this e-mail address already exists.
    DuplicateUserEmail,
    /// Unknown user or wrong password; the two are not told apart.
    WrongCredentials,
    /// The addressed record does not exist.
    NotFound,
    /// The request crosses an idempotency boundary.
    Conflict,
    /// Service discovery or a remote call failed.
    DownstreamUnavailable,
    /// An unexpected database or runtime failure.
    Internal,
}

impl ApiError {
    /// The HTTP status code reported for this error.
    pub open spec fn spec_status(self) -> u16 {
        match self {
            ApiError::BadRequest => 400,
            ApiError::Unauthorized => 401,
            ApiError::NotFound => 404,
            ApiError::Conflict => 409,
            ApiError::DownstreamUnavailable => 503,
            _ => 500,
        }
    }

    /// Returns the HTTP status code reported for this error. A duplicate
    /// e-mail is reported with status 500.
    pub fn status_code(&self) -> (r: u16)
        ensures
            r == self.spec_status(),
    {
        match self {
            ApiError::BadRequest => 400,
            ApiError::Unauthorized => 401,
            ApiError::NotFound => 404,
            ApiError::Conflict => 409,
            ApiError::DownstreamUnavailable => 503,
            _ => 500,
        }
    }

    /// The response body reported for this error.
    pub open spec fn spec_message(self) -> Seq<char> {
        match self {
            ApiError::BadRequest => "bad request"@,
            ApiError::Unauthorized => "unauthorized"@,
            ApiError::DuplicateUserEmail => "DuplicateUserEmail"@,
            ApiError::WrongCredentials => "wrong password."@,
            ApiError::NotFound => "not found"@,
            ApiError::Conflict => "conflict"@,
            ApiError::DownstreamUnavailable => "downstream unavailable"@,
            ApiError::Internal => "internal error"@,
        }
    }

    /// Returns the response body reported for this error.
    pub fn message(&self) -> (r: String)
        ensures
            r@ == self.spec_message(),
    {
        let s = match self {
            ApiError::BadRequest => "bad request",
            ApiError::Unauthorized => "unauthorized",
            ApiError::DuplicateUserEmail => "DuplicateUserEmail",
            ApiError::WrongCredentials => "wrong password.",
            ApiError::NotFound => "not found",
            ApiError::Conflict => "conflict",
            ApiError::DownstreamUnavailable => "downstream unavailable",
            ApiError::Internal => "internal error",
        };
        s.to_string()
    }
}

} // verus!
