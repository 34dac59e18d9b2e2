use crate::text::{decimal, decimal_text};
use vstd::prelude::*;

verus! {

/// The status codes that the server answers with.
#[derive(Copy, Clone, Debug, PartialEq, Eq, Structural)]
pub enum StatusCode {
    OK,
    BadRequest,
    Forbidden,
    NotFound,
    MethodNotAllowed,
    RequestTimeout,
    PayloadTooLarge,
    TooManyRequests,
    InternalServerError,
}

impl StatusCode {
    /// The three-digit number of the status.
    pub open spec fn number(self) -> u16 {
        match self {
            StatusCode::OK => 200,
            StatusCode::BadRequest => 400,
            StatusCode::Forbidden => 403,
            StatusCode::NotFound => 404,
            StatusCode::MethodNotAllowed => 405,
            StatusCode::RequestTimeout => 408,
            StatusCode::PayloadTooLarge => 413,
            StatusCode::TooManyRequests => 429,
            StatusCode::InternalServerError => 500,
        }
    }

    /// The reason phrase that goes with the status on the status line.
    pub open spec fn reason(self) -> Seq<char> {
        match self {
            StatusCode::OK => "OK"@,
            StatusCode::BadRequest => "Bad Request"@,
            StatusCode::Forbidden => "Forbidden"@,
            StatusCode::NotFound => "Not Found"@,
            StatusCode::MethodNotAllowed => "Method Not Allowed"@,
            StatusCode::RequestTimeout => "Request Timeout"@,
            StatusCode::PayloadTooLarge => "Payload Too Large"@,
            StatusCode::TooManyRequests => "Too Many Requests"@,
            StatusCode::InternalServerError => "Internal Server Error"@,
        }
    }

    pub fn code(&self) -> (c: u16)
        ensures
            c == self.number(),
            100 <= c <= 599,
    {
        match self {
            StatusCode::OK => 200,
            StatusCode::BadRequest => 400,
            StatusCode::Forbidden => 403,
            StatusCode::NotFound => 404,
            StatusCode::MethodNotAllowed => 405,
            StatusCode::RequestTimeout => 408,
            StatusCode::PayloadTooLarge => 413,
            StatusCode::TooManyRequests => 429,
            StatusCode::InternalServerError => 500,
        }
    }

    pub fn reason_phrase(&self) -> (r: &'static str)
        ensures
            r@ == self.reason(),
    {
        match self {
            StatusCode::OK => "OK",
            StatusCode::BadRequest => "Bad Request",
            StatusCode::Forbidden => "Forbidden",
            StatusCode::NotFound => "Not Found",
            StatusCode::MethodNotAllowed => "Method Not Allowed",
            StatusCode::RequestTimeout => "Request Timeout",
            StatusCode::PayloadTooLarge => "Payload Too Large",
            StatusCode::TooManyRequests => "Too Many Requests",
            StatusCode::InternalServerError => "Internal Server Error",
        }
    }

    /// The number of the status in decimal, as it stands on the status line.
    pub fn to_string(&self) -> (s: String)
        ensures
            s@ == decimal(self.number() as nat),
    {
        decimal_text(self.code() as u128)
    }
}

} // verus!
