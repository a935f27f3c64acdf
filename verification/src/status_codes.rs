//! The response statuses that the server sends.

use vstd::prelude::*;

verus! {

/// The status of a response.
#[derive(Debug, Hash, Eq, PartialEq, Clone, Copy, Structural)]
pub enum StatusCodes {
    OK,
    BadRequest,
    NotFound,
    MethodNotAllowed,
    UnsupportedMediaType,
}

impl StatusCodes {
    /// The three-digit code of this status.
    pub open spec fn code(self) -> nat {
        match self {
            StatusCodes::OK => 200,
            StatusCodes::BadRequest => 400,
            StatusCodes::NotFound => 404,
            StatusCodes::MethodNotAllowed => 405,
            StatusCodes::UnsupportedMediaType => 415,
        }
    }

    /// The reason phrase that follows the code on the status line.
    pub open spec fn reason(self) -> Seq<char> {
        match self {
            StatusCodes::OK => "OK"@,
            StatusCodes::BadRequest => "Bad Request"@,
            StatusCodes::NotFound => "Not Found"@,
            StatusCodes::MethodNotAllowed => "Method Not Allowed"@,
            StatusCodes::UnsupportedMediaType => "Unsupported Media Type"@,
        }
    }

    /// The code of this status.
    pub fn as_code(&self) -> (r: u16)
        ensures
            r == self.code(),
    {
        match self {
            StatusCodes::OK => 200,
            StatusCodes::BadRequest => 400,
            StatusCodes::NotFound => 404,
            StatusCodes::MethodNotAllowed => 405,
            StatusCodes::UnsupportedMediaType => 415,
        }
    }

    /// The reason phrase of this status.
    pub fn as_reason_phrase(&self) -> (r: &str)
        ensures
            r@ == self.reason(),
    {
        match self {
            StatusCodes::OK => "OK",
            StatusCodes::BadRequest => "Bad Request",
            StatusCodes::NotFound => "Not Found",
            StatusCodes::MethodNotAllowed => "Method Not Allowed",
            StatusCodes::UnsupportedMediaType => "Unsupported Media Type",
        }
    }
}

} // verus!
