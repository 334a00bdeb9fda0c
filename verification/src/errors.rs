//! Error codes and the errors that request handlers report.

use vstd::prelude::*;
use vstd::string::*;

verus! {

/// The numeric codes that error bodies carry.
#[derive(Debug, Clone, Copy, PartialEq, Eq, Structural)]
pub enum ErrorCode {
    Unauthorized,
    UnknownQueryParam,
    MissingParam,
    InvalidParam,
}

impl ErrorCode {
    /// The number that stands for the code in a response body.
    pub open spec fn spec_value(self) -> u32 {
        match self {
            ErrorCode::Unauthorized => 1000,
            ErrorCode::UnknownQueryParam => 1001,
            ErrorCode::MissingParam => 1002,
            ErrorCode::InvalidParam => 1003,
        }
    }

    /// The number that stands for the code in a response body.
    pub fn value(&self) -> (r: u32)
        ensures
            r == self.spec_value(),
    {
        match self {
            ErrorCode::Unauthorized => 1000,
            ErrorCode::UnknownQueryParam => 1001,
            ErrorCode::MissingParam => 1002,
            ErrorCode::InvalidParam => 1003,
        }
    }
}

/// An error that a request handler answers with `400 Bad Request`.
#[derive(Debug, PartialEq, Eq)]
pub enum ApiError {
    UnknownQueryParam(String),
    MissingParam(String),
    InvalidParam { field: &'static str, reason: String },
}

impl ApiError {
    /// The code of the error.
    pub open spec fn spec_code(&self) -> ErrorCode {
        match self {
            ApiError::UnknownQueryParam(_) => ErrorCode::UnknownQueryParam,
            ApiError::MissingParam(_) => ErrorCode::MissingParam,
            ApiError::InvalidParam { .. } => ErrorCode::InvalidParam,
        }
    }

    /// The message of the error, as its `Display` writes it.
    pub open spec fn spec_message(&self) -> Seq<char> {
        match self {
            ApiError::UnknownQueryParam(key) => "Unknown query parameter: "@ + key@,
            ApiError::MissingParam(name) => "Missing required parameter: "@ + name@,
            ApiError::InvalidParam { field, reason } => "Invalid parameter value for '"@
                + field@ + "': "@ + reason@,
        }
    }

    /// The code of the error.
    pub fn code(&self) -> (r: ErrorCode)
        ensures
            r == self.spec_code(),
    {
        match self {
            ApiError::UnknownQueryParam(_) => ErrorCode::UnknownQueryParam,
            ApiError::MissingParam(_) => ErrorCode::MissingParam,
            ApiError::InvalidParam { .. } => ErrorCode::InvalidParam,
        }
    }

    /// The HTTP status of every such error: `400 Bad Request`.
    pub fn status_code(&self) -> (r: u16)
        ensures
            r == 400,
    {
        400
    }

    /// The message of the error.
    pub fn message(&self) -> (r: String)
        ensures
            r@ == self.spec_message(),
    {
        match self {
            ApiError::UnknownQueryParam(key) => {
                let mut m = String::from_str("Unknown query parameter: ");
                m.append(key.as_str());
                m
            },
            ApiError::MissingParam(name) => {
                let mut m = String::from_str("Missing required parameter: ");
                m.append(name.as_str());
                m
            },
            ApiError::InvalidParam { field, reason } => {
                let mut m = String::from_str("Invalid parameter value for '");
                m.append(field);
                m.append("': ");
                m.append(reason.as_str());
                m
            },
        }
    }
}

} // verus!
