//! The four error kinds every failure of the core is translated into,
//! each carrying a human-readable message.

use vstd::prelude::*;

verus! {

/// Classified failure of a core operation.
#[derive(Debug)]
pub enum AppError {
    /// Malformed or missing input.
    BadRequest(String),
    /// Missing, invalid, expired or wrong-kind credential.
    Unauthorized(String),
    /// A referenced entity is absent.
    NotFound(String),
    /// Storage, signing or external-provider failure.
    Internal(String),
}

impl AppError {
    /// HTTP status code of the error kind.
    pub open spec fn spec_status_code(&self) -> u16 {
        match self {
            AppError::BadRequest(_) => 400,
            AppError::Unauthorized(_) => 401,
            AppError::NotFound(_) => 404,
            AppError::Internal(_) => 500,
        }
    }

    /// HTTP status code of the error kind.
    pub fn status_code(&self) -> (r: u16)
        ensures
            r == self.spec_status_code(),
    {
        match self {
            AppError::BadRequest(_) => 400,
            AppError::Unauthorized(_) => 401,
            AppError::NotFound(_) => 404,
            AppError::Internal(_) => 500,
        }
    }

    /// The message carried by the error.
    pub open spec fn spec_message(&self) -> Seq<char> {
        match self {
            AppError::BadRequest(m) => m@,
            AppError::Unauthorized(m) => m@,
            AppError::NotFound(m) => m@,
            AppError::Internal(m) => m@,
        }
    }

    /// The message carried by the error.
    pub fn message(&self) -> (r: &String)
        ensures
            r@ == self.spec_message(),
    {
        match self {
            AppError::BadRequest(m) => m,
            AppError::Unauthorized(m) => m,
            AppError::NotFound(m) => m,
            AppError::Internal(m) => m,
        }
    }
}

} // verus!
