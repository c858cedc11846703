//! The error taxonomy of the platform core.
//!
//! Every fallible operation of the library reports one of five categories.
//! Callers must be able to distinguish `Unauthorized` (no valid identity)
//! from `Forbidden` (authenticated but insufficient role); failures of the
//! storage or hashing subsystems surface as `Internal` without backend
//! detail.

use vstd::prelude::*;

verus! {

/// The failure categories a caller can observe.
#[derive(Clone, Copy, Debug, PartialEq, Eq, Structural)]
pub enum AppError {
    /// A referenced article, comment or user does not exist.
    NotFound,
    /// No valid identity: missing, malformed or expired token, or bad
    /// login credentials.
    Unauthorized,
    /// Malformed payload: id mismatch, duplicate username, invalid role.
    BadRequest,
    /// Authenticated but the role is insufficient, or a protected-account
    /// rule was violated.
    Forbidden,
    /// A storage or hashing subsystem failure, wrapped without detail.
    Internal,
}

/// The HTTP status that corresponds to each error category.
pub open spec fn status_of(e: AppError) -> u16 {
    match e {
        AppError::NotFound => 404,
        AppError::Unauthorized => 401,
        AppError::BadRequest => 400,
        AppError::Forbidden => 403,
        AppError::Internal => 500,
    }
}

/// The user-visible message for each error category; it never reveals
/// which specific check failed beyond the category itself.
pub open spec fn message_of(e: AppError) -> Seq<char> {
    match e {
        AppError::NotFound => "not found"@,
        AppError::Unauthorized => "unauthorized"@,
        AppError::BadRequest => "bad request"@,
        AppError::Forbidden => "insufficient privileges"@,
        AppError::Internal => "internal server error"@,
    }
}

impl AppError {
    /// The HTTP status code this error maps to.
    pub fn status_code(&self) -> (code: u16)
        ensures
            code == status_of(*self),
    {
        match *self {
            AppError::NotFound => 404,
            AppError::Unauthorized => 401,
            AppError::BadRequest => 400,
            AppError::Forbidden => 403,
            AppError::Internal => 500,
        }
    }

    /// The response message for this error.
    pub fn message(&self) -> (msg: String)
        ensures
            msg@ == message_of(*self),
    {
        match *self {
            AppError::NotFound => String::from_str("not found"),
            AppError::Unauthorized => String::from_str("unauthorized"),
            AppError::BadRequest => String::from_str("bad request"),
            AppError::Forbidden => String::from_str("insufficient privileges"),
            AppError::Internal => String::from_str("internal server error"),
        }
    }
}

/// Why a token failed validation: a bad signature or shape, or a correct
/// signature past its expiry. The two are reported distinctly.
#[derive(Clone, Copy, Debug, PartialEq, Eq, Structural)]
pub enum AuthError {
    /// The token could not be parsed or its signature does not match.
    Malformed,
    /// The signature matches but the token has expired.
    Expired,
}

} // verus!
