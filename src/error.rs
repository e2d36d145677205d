//! Errors that the service reports through HTTP status codes.
use vstd::prelude::*;

verus! {

/// An error reported by the service, with the body of its response.
#[derive(Debug, Clone, PartialEq, Eq)]
pub enum ApiError {
    Unknown(String),
    BadRequest(String),
    Unauthorized(String),
    InsufficientFunds(String),
    InvalidParameters(String),
    RateLimitExceeded(String),
    ServerError(String),
    ServiceUnavailable(String),
}

/// The status codes that the service documents as errors.
pub open spec fn is_documented_error(status: u16) -> bool {
    status == 400 || status == 401 || status == 402 || status == 422 || status == 429 || status
        == 500 || status == 503
}

/// The error that a status code stands for, if it is a documented one.
pub open spec fn error_for_status(status: u16, message: String) -> Option<ApiError> {
    if status == 400 {
        Some(ApiError::BadRequest(message))
    } else if status == 401 {
        Some(ApiError::Unauthorized(message))
    } else if status == 402 {
        Some(ApiError::InsufficientFunds(message))
    } else if status == 422 {
        Some(ApiError::InvalidParameters(message))
    } else if status == 429 {
        Some(ApiError::RateLimitExceeded(message))
    } else if status == 500 {
        Some(ApiError::ServerError(message))
    } else if status == 503 {
        Some(ApiError::ServiceUnavailable(message))
    } else {
        None
    }
}

/// Whether a response with this status carries an error.
pub fn is_error_status(status: u16) -> (r: bool)
    ensures
        r == is_documented_error(status),
{
    status == 400 || status == 401 || status == 402 || status == 422 || status == 429 || status
        == 500 || status == 503
}

/// The words that start the description of each error.
pub open spec fn error_title(e: ApiError) -> Seq<char> {
    match e {
        ApiError::Unknown(_) => "Unknown Error: "@,
        ApiError::BadRequest(_) => "Bad Request: "@,
        ApiError::Unauthorized(_) => "Unauthorized: "@,
        ApiError::InsufficientFunds(_) => "Insufficient Funds: "@,
        ApiError::InvalidParameters(_) => "Invalid Parameters: "@,
        ApiError::RateLimitExceeded(_) => "Rate Limit Exceeded: "@,
        ApiError::ServerError(_) => "Server Error: "@,
        ApiError::ServiceUnavailable(_) => "Service Unavailable: "@,
    }
}

/// The message that an error carries.
pub open spec fn error_message(e: ApiError) -> Seq<char> {
    match e {
        ApiError::Unknown(m) => m@,
        ApiError::BadRequest(m) => m@,
        ApiError::Unauthorized(m) => m@,
        ApiError::InsufficientFunds(m) => m@,
        ApiError::InvalidParameters(m) => m@,
        ApiError::RateLimitExceeded(m) => m@,
        ApiError::ServerError(m) => m@,
        ApiError::ServiceUnavailable(m) => m@,
    }
}

impl ApiError {
    /// The error for a response with this status and body; `None` for a
    /// status that is not a documented error.
    pub fn from_status(status: u16, message: String) -> (r: Option<ApiError>)
        ensures
            r == error_for_status(status, message),
            r is None <==> !is_documented_error(status),
    {
        if status == 400 {
            Some(ApiError::BadRequest(message))
        } else if status == 401 {
            Some(ApiError::Unauthorized(message))
        } else if status == 402 {
            Some(ApiError::InsufficientFunds(message))
        } else if status == 422 {
            Some(ApiError::InvalidParameters(message))
        } else if status == 429 {
            Some(ApiError::RateLimitExceeded(message))
        } else if status == 500 {
            Some(ApiError::ServerError(message))
        } else if status == 503 {
            Some(ApiError::ServiceUnavailable(message))
        } else {
            None
        }
    }

    /// A description of the error: its title and its message.
    pub fn to_string(&self) -> (r: String)
        ensures
            r@ == error_title(*self) + error_message(*self),
    {
        let (title, message) = match self {
            ApiError::Unknown(m) => ("Unknown Error: ", m),
            ApiError::BadRequest(m) => ("Bad Request: ", m),
            ApiError::Unauthorized(m) => ("Unauthorized: ", m),
            ApiError::InsufficientFunds(m) => ("Insufficient Funds: ", m),
            ApiError::InvalidParameters(m) => ("Invalid Parameters: ", m),
            ApiError::RateLimitExceeded(m) => ("Rate Limit Exceeded: ", m),
            ApiError::ServerError(m) => ("Server Error: ", m),
            ApiError::ServiceUnavailable(m) => ("Service Unavailable: ", m),
        };
        String::from_str(title).concat(message.as_str())
    }
}

} // verus!
