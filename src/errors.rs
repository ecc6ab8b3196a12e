//! Errors that the service reports to its callers.

use vstd::prelude::*;
use vstd::string::*;

verus! {

/// A failure reported to a caller, with its message.
pub enum ApiError {
    BadRequest(String),
    Upstream(String),
    RateLimit(String),
    AuthError(String),
    NotFound(String),
    ValidationError(String),
    InternalError(String),
    External(String),
    Configuration(String),
    InvalidInput(String),
}

/// The HTTP status that each kind of error is answered with.
pub open spec fn status_of(e: ApiError) -> u16 {
    match e {
        ApiError::BadRequest(_) => 400,
        ApiError::Upstream(_) => 502,
        ApiError::RateLimit(_) => 429,
        ApiError::AuthError(_) => 401,
        ApiError::NotFound(_) => 404,
        ApiError::ValidationError(_) => 400,
        ApiError::InternalError(_) => 500,
        ApiError::External(_) => 502,
        ApiError::Configuration(_) => 500,
        ApiError::InvalidInput(_) => 400,
    }
}

/// The message that an error carries.
pub open spec fn detail_of(e: ApiError) -> Seq<char> {
    match e {
        ApiError::BadRequest(m) => m@,
        ApiError::Upstream(m) => m@,
        ApiError::RateLimit(m) => m@,
        ApiError::AuthError(m) => m@,
        ApiError::NotFound(m) => m@,
        ApiError::ValidationError(m) => m@,
        ApiError::InternalError(m) => m@,
        ApiError::External(m) => m@,
        ApiError::Configuration(m) => m@,
        ApiError::InvalidInput(m) => m@,
    }
}

/// The words that introduce each kind of error in its description.
pub open spec fn label_of(e: ApiError) -> Seq<char> {
    match e {
        ApiError::BadRequest(_) => "bad request: "@,
        ApiError::Upstream(_) => "upstream error: "@,
        ApiError::RateLimit(_) => "rate limit exceeded: "@,
        ApiError::AuthError(_) => "authentication failed: "@,
        ApiError::NotFound(_) => "not found: "@,
        ApiError::ValidationError(_) => "validation error: "@,
        ApiError::InternalError(_) => "internal server error: "@,
        ApiError::External(_) => "external service error: "@,
        ApiError::Configuration(_) => "configuration error: "@,
        ApiError::InvalidInput(_) => "invalid input: "@,
    }
}

impl ApiError {
    /// The HTTP status code of the response that reports this error.
    pub fn status_code(&self) -> (r: u16)
        ensures
            r == status_of(*self),
    {
        match self {
            ApiError::BadRequest(_) => 400,
            ApiError::Upstream(_) => 502,
            ApiError::RateLimit(_) => 429,
            ApiError::AuthError(_) => 401,
            ApiError::NotFound(_) => 404,
            ApiError::ValidationError(_) => 400,
            ApiError::InternalError(_) => 500,
            ApiError::External(_) => 502,
            ApiError::Configuration(_) => 500,
            ApiError::InvalidInput(_) => 400,
        }
    }

    /// The message alone, as the error body carries it.
    pub fn detail(&self) -> (r: &str)
        ensures
            r@ == detail_of(*self),
    {
        match self {
            ApiError::BadRequest(m) => m.as_str(),
            ApiError::Upstream(m) => m.as_str(),
            ApiError::RateLimit(m) => m.as_str(),
            ApiError::AuthError(m) => m.as_str(),
            ApiError::NotFound(m) => m.as_str(),
            ApiError::ValidationError(m) => m.as_str(),
            ApiError::InternalError(m) => m.as_str(),
            ApiError::External(m) => m.as_str(),
            ApiError::Configuration(m) => m.as_str(),
            ApiError::InvalidInput(m) => m.as_str(),
        }
    }

    /// A one-line description: the kind of error, then its message.
    pub fn describe(&self) -> (r: String)
        ensures
            r@ == label_of(*self) + detail_of(*self),
    {
        let mut r = match self {
            ApiError::BadRequest(_) => String::from_str("bad request: "),
            ApiError::Upstream(_) => String::from_str("upstream error: "),
            ApiError::RateLimit(_) => String::from_str("rate limit exceeded: "),
            ApiError::AuthError(_) => String::from_str("authentication failed: "),
            ApiError::NotFound(_) => String::from_str("not found: "),
            ApiError::ValidationError(_) => String::from_str("validation error: "),
            ApiError::InternalError(_) => String::from_str("internal server error: "),
            ApiError::External(_) => String::from_str("external service error: "),
            ApiError::Configuration(_) => String::from_str("configuration error: "),
            ApiError::InvalidInput(_) => String::from_str("invalid input: "),
        };
        r.append(self.detail());
        r
    }
}

} // verus!
