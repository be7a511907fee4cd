use vstd::prelude::*;

use crate::text::owned;

verus! {

/// An error that an API call answers with.
#[derive(Debug, Clone, PartialEq, Eq)]
pub enum ApiError {
    BadRequest(String),
    PayloadTooLarge(String),
    NotFound(String),
    ServiceUnavailable(String),
    Internal(String),
}

impl ApiError {
    pub fn bad_request(message: String) -> (e: Self)
        ensures
            e == ApiError::BadRequest(message),
    {
        ApiError::BadRequest(message)
    }

    pub fn payload_too_large(message: String) -> (e: Self)
        ensures
            e == ApiError::PayloadTooLarge(message),
    {
        ApiError::PayloadTooLarge(message)
    }

    pub fn not_found(message: String) -> (e: Self)
        ensures
            e == ApiError::NotFound(message),
    {
        ApiError::NotFound(message)
    }

    pub fn service_unavailable(message: String) -> (e: Self)
        ensures
            e == ApiError::ServiceUnavailable(message),
    {
        ApiError::ServiceUnavailable(message)
    }

    pub fn internal(message: String) -> (e: Self)
        ensures
            e == ApiError::Internal(message),
    {
        ApiError::Internal(message)
    }

    /// The message the error carries.
    pub open spec fn text(self) -> Seq<char> {
        match self {
            ApiError::BadRequest(m) => m@,
            ApiError::PayloadTooLarge(m) => m@,
            ApiError::NotFound(m) => m@,
            ApiError::ServiceUnavailable(m) => m@,
            ApiError::Internal(m) => m@,
        }
    }

    /// The message the error carries, as its response shows it.
    pub fn message(&self) -> (m: String)
        ensures
            m@ == self.text(),
    {
        match self {
            ApiError::BadRequest(m) => owned(m.as_str()),
            ApiError::PayloadTooLarge(m) => owned(m.as_str()),
            ApiError::NotFound(m) => owned(m.as_str()),
            ApiError::ServiceUnavailable(m) => owned(m.as_str()),
            ApiError::Internal(m) => owned(m.as_str()),
        }
    }

    /// The HTTP status of the response.
    pub open spec fn status(self) -> u16 {
        match self {
            ApiError::BadRequest(_) => 400,
            ApiError::PayloadTooLarge(_) => 413,
            ApiError::NotFound(_) => 404,
            ApiError::ServiceUnavailable(_) => 503,
            ApiError::Internal(_) => 500,
        }
    }

    /// The HTTP status of the response.
    pub fn status_code(&self) -> (s: u16)
        ensures
            s == self.status(),
    {
        match self {
            ApiError::BadRequest(_) => 400,
            ApiError::PayloadTooLarge(_) => 413,
            ApiError::NotFound(_) => 404,
            ApiError::ServiceUnavailable(_) => 503,
            ApiError::Internal(_) => 500,
        }
    }
}

} // verus!
