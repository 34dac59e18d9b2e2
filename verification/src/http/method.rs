use crate::text::same_chars;
use crate::text::chars_of;
use vstd::prelude::*;

verus! {

/// The request methods of HTTP/1.1.
#[derive(Copy, Clone, Debug, PartialEq, Eq, Structural)]
pub enum Method {
    GET,
    DELETE,
    POST,
    PUT,
    HEAD,
    CONNECT,
    OPTIONS,
    TRACE,
    PATCH,
}

impl Method {
    /// The token that names the method on the request line.
    pub open spec fn name(self) -> Seq<char> {
        match self {
            Method::GET => "GET"@,
            Method::DELETE => "DELETE"@,
            Method::POST => "POST"@,
            Method::PUT => "PUT"@,
            Method::HEAD => "HEAD"@,
            Method::CONNECT => "CONNECT"@,
            Method::OPTIONS => "OPTIONS"@,
            Method::TRACE => "TRACE"@,
            Method::PATCH => "PATCH"@,
        }
    }

    /// The method that a token names, if any. Tokens are case-sensitive.
    pub open spec fn named(token: Seq<char>) -> Option<Method> {
        if token == "GET"@ {
            Some(Method::GET)
        } else if token == "DELETE"@ {
            Some(Method::DELETE)
        } else if token == "POST"@ {
            Some(Method::POST)
        } else if token == "PUT"@ {
            Some(Method::PUT)
        } else if token == "HEAD"@ {
            Some(Method::HEAD)
        } else if token == "CONNECT"@ {
            Some(Method::CONNECT)
        } else if token == "OPTIONS"@ {
            Some(Method::OPTIONS)
        } else if token == "TRACE"@ {
            Some(Method::TRACE)
        } else if token == "PATCH"@ {
            Some(Method::PATCH)
        } else {
            None
        }
    }

    pub fn as_str(&self) -> (r: &'static str)
        ensures
            r@ == self.name(),
    {
        match self {
            Method::GET => "GET",
            Method::DELETE => "DELETE",
            Method::POST => "POST",
            Method::PUT => "PUT",
            Method::HEAD => "HEAD",
            Method::CONNECT => "CONNECT",
            Method::OPTIONS => "OPTIONS",
            Method::TRACE => "TRACE",
            Method::PATCH => "PATCH",
        }
    }

    /// Reads a method from its token.
    pub fn from_token(token: &Vec<char>) -> (r: Option<Method>)
        ensures
            r == Method::named(token@),
    {
        if same_chars(token, &chars_of("GET")) {
            Some(Method::GET)
        } else if same_chars(token, &chars_of("DELETE")) {
            Some(Method::DELETE)
        } else if same_chars(token, &chars_of("POST")) {
            Some(Method::POST)
        } else if same_chars(token, &chars_of("PUT")) {
            Some(Method::PUT)
        } else if same_chars(token, &chars_of("HEAD")) {
            Some(Method::HEAD)
        } else if same_chars(token, &chars_of("CONNECT")) {
            Some(Method::CONNECT)
        } else if same_chars(token, &chars_of("OPTIONS")) {
            Some(Method::OPTIONS)
        } else if same_chars(token, &chars_of("TRACE")) {
            Some(Method::TRACE)
        } else if same_chars(token, &chars_of("PATCH")) {
            Some(Method::PATCH)
        } else {
            None
        }
    }
}

} // verus!
