use super::status_code::StatusCode;
use crate::text::{byte_len, decimal, push_decimal, utf8_len};
use vstd::prelude::*;

verus! {

/// The content type of a response that names none.
pub const TEXT_PLAIN: &'static str = "text/plain; charset=utf-8";

/// The content type of an HTML page.
pub const TEXT_HTML: &'static str = "text/html; charset=utf-8";

/// The body of the response to a client over its rate limit.
pub const RATE_LIMITED_BODY: &'static str = "Rate limit exceeded. Please try again later.";

/// The headers that every response carries besides those computed for it,
/// each line ended by CR LF.
pub const SECURITY_HEADERS: &'static str =
    "X-Content-Type-Options: nosniff\r\nX-Frame-Options: DENY\r\nX-XSS-Protection: 1; mode=block\r\nReferrer-Policy: strict-origin-when-cross-origin\r\nContent-Security-Policy: default-src 'self'; script-src 'self' 'unsafe-inline'; style-src 'self' 'unsafe-inline'; img-src 'self' data:; object-src 'none'; base-uri 'self'\r\nStrict-Transport-Security: max-age=31536000; includeSubDomains\r\nPermissions-Policy: geolocation=(), microphone=(), camera=()\r\nCache-Control: no-cache, no-store, must-revalidate\r\nPragma: no-cache\r\nExpires: 0\r\n";

/// A response before it is put on the wire.
#[derive(Debug)]
pub struct Response {
    status_code: StatusCode,
    body: Option<String>,
    content_type: String,
}

/// What a response holds, as mathematical values.
pub ghost struct ResponseView {
    pub status_code: StatusCode,
    pub body: Option<Seq<char>>,
    pub content_type: Seq<char>,
}

impl View for Response {
    type V = ResponseView;

    closed spec fn view(&self) -> ResponseView {
        ResponseView {
            status_code: self.status_code,
            body: match self.body {
                Some(b) => Some(b@),
                None => None,
            },
            content_type: self.content_type@,
        }
    }
}

impl ResponseView {
    /// The body as it is sent: empty where the response has none.
    pub open spec fn body_text(self) -> Seq<char> {
        match self.body {
            Some(b) => b,
            None => Seq::empty(),
        }
    }

    /// The response on the wire: status line, headers, an empty line, body.
    /// `Content-Length` counts the bytes of the body in UTF-8.
    pub open spec fn wire(self) -> Seq<char> {
        "HTTP/1.1 "@ + decimal(self.status_code.number() as nat) + " "@
            + self.status_code.reason() + "\r\nContent-Type: "@ + self.content_type
            + "\r\nContent-Length: "@ + decimal(utf8_len(self.body_text()))
            + "\r\nConnection: close\r\nServer: SecureRustServer/1.0\r\n"@ + SECURITY_HEADERS@
            + "\r\n"@ + self.body_text()
    }
}

impl Response {
    /// A plain-text response.
    pub fn new(status_code: StatusCode, body: Option<String>) -> (r: Response)
        ensures
            r@.status_code == status_code,
            r@.body == match body {
                Some(b) => Some(b@),
                None => None,
            },
            r@.content_type == TEXT_PLAIN@,
    {
        Response { status_code, body, content_type: TEXT_PLAIN.to_owned() }
    }

    /// An HTML response.
    pub fn html(status_code: StatusCode, body: Option<String>) -> (r: Response)
        ensures
            r@.status_code == status_code,
            r@.body == match body {
                Some(b) => Some(b@),
                None => None,
            },
            r@.content_type == TEXT_HTML@,
    {
        Response { status_code, body, content_type: TEXT_HTML.to_owned() }
    }

    /// A response of the content type given.
    pub fn with_content_type(
        status_code: StatusCode,
        body: Option<String>,
        content_type: String,
    ) -> (r: Response)
        ensures
            r@.status_code == status_code,
            r@.body == match body {
                Some(b) => Some(b@),
                None => None,
            },
            r@.content_type == content_type@,
    {
        Response { status_code, body, content_type }
    }

    /// The response to a request that the security policy turns away: 400,
    /// with the reason behind a fixed prefix.
    pub fn security_error(message: &str) -> (r: Response)
        ensures
            r@ == (ResponseView {
                status_code: StatusCode::BadRequest,
                body: Some("Security violation: "@ + message@),
                content_type: TEXT_PLAIN@,
            }),
    {
        let mut body = "Security violation: ".to_owned();
        body.append(message);
        Response::new(StatusCode::BadRequest, Some(body))
    }

    /// The response to a client over its rate limit: 429 with a fixed body.
    pub fn rate_limited() -> (r: Response)
        ensures
            r@ == (ResponseView {
                status_code: StatusCode::TooManyRequests,
                body: Some(RATE_LIMITED_BODY@),
                content_type: TEXT_PLAIN@,
            }),
    {
        Response::new(StatusCode::TooManyRequests, Some(RATE_LIMITED_BODY.to_owned()))
    }

    /// The fixed block of security headers.
    pub fn get_security_headers(&self) -> (s: String)
        ensures
            s@ == SECURITY_HEADERS@,
    {
        SECURITY_HEADERS.to_owned()
    }

    /// The response as it goes on the wire.
    pub fn to_wire(&self) -> (s: String)
        ensures
            s@ == self@.wire(),
    {
        let body: &str = match &self.body {
            Some(b) => b.as_str(),
            None => "",
        };
        proof {
            reveal_strlit("");
            assert(body@ =~= self@.body_text());
        }
        let mut s = "HTTP/1.1 ".to_owned();
        push_decimal(&mut s, self.status_code.code() as u128);
        s.append(" ");
        s.append(self.status_code.reason_phrase());
        s.append("\r\nContent-Type: ");
        s.append(self.content_type.as_str());
        s.append("\r\nContent-Length: ");
        push_decimal(&mut s, byte_len(body) as u128);
        s.append("\r\nConnection: close\r\nServer: SecureRustServer/1.0\r\n");
        s.append(self.get_security_headers().as_str());
        s.append("\r\n");
        s.append(body);
        s
    }

    pub fn status_code(&self) -> (c: StatusCode)
        ensures
            c == self@.status_code,
    {
        self.status_code
    }

    pub fn body(&self) -> (b: Option<&str>)
        ensures
            match b {
                Some(t) => self@.body == Some(t@),
                None => self@.body is None,
            },
    {
        match &self.body {
            Some(b) => Some(b.as_str()),
            None => None,
        }
    }

    pub fn content_type(&self) -> (t: &str)
        ensures
            t@ == self@.content_type,
    {
        self.content_type.as_str()
    }
}

} // verus!
