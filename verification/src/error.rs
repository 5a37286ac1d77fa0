//! Error taxonomy of the engine's request surface.

use vstd::prelude::*;

verus! {

/// A declined request, with the reason the caller is shown.
#[derive(Debug)]
pub enum ApiError {
    /// The caller may not perform the operation.
    Forbidden(String),
    /// The thing asked for does not exist.
    NotFound(String),
    /// The request itself is malformed.
    BadRequest(String),
    /// The engine failed on its own account.
    Internal(String),
}

impl ApiError {
    /// The HTTP status the error maps to.
    pub fn status_code(&self) -> (r: u16)
        ensures
            r == match self {
                ApiError::Forbidden(_) => 403u16,
                ApiError::NotFound(_) => 404u16,
                ApiError::BadRequest(_) => 400u16,
                ApiError::Internal(_) => 500u16,
            },
    {
        match self {
            ApiError::Forbidden(_) => 403,
            ApiError::NotFound(_) => 404,
            ApiError::BadRequest(_) => 400,
            ApiError::Internal(_) => 500,
        }
    }

    /// The error rendered as `<kind>: <detail>`.
    pub fn message(&self) -> (r: String)
        ensures
            r@ == match self {
                ApiError::Forbidden(m) => "Forbidden: "@ + m@,
                ApiError::NotFound(m) => "Not Found: "@ + m@,
                ApiError::BadRequest(m) => "Bad Request: "@ + m@,
                ApiError::Internal(m) => "Internal Error: "@ + m@,
            },
    {
        let mut r = match self {
            ApiError::Forbidden(_) => String::from_str("Forbidden: "),
            ApiError::NotFound(_) => String::from_str("Not Found: "),
            ApiError::BadRequest(_) => String::from_str("Bad Request: "),
            ApiError::Internal(_) => String::from_str("Internal Error: "),
        };
        match self {
            ApiError::Forbidden(m) => r.append(m.as_str()),
            ApiError::NotFound(m) => r.append(m.as_str()),
            ApiError::BadRequest(m) => r.append(m.as_str()),
            ApiError::Internal(m) => r.append(m.as_str()),
        }
        r
    }
}

} // verus!
