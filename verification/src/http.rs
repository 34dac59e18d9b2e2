//! The HTTP vocabulary of the server: methods, status codes, requests and
//! responses.

pub mod method;
pub mod request;
pub mod response;
pub mod status_code;

pub use method::Method;
pub use request::{ParseError, QueryString, Request, RequestView};
pub use response::{Response, ResponseView};
pub use status_code::StatusCode;
