use secure_server::http::response::{RATE_LIMITED_BODY, SECURITY_HEADERS, TEXT_HTML, TEXT_PLAIN};
use secure_server::http::{Response, StatusCode};

const ALL: [StatusCode; 9] = [
    StatusCode::OK,
    StatusCode::BadRequest,
    StatusCode::Forbidden,
    StatusCode::NotFound,
    StatusCode::MethodNotAllowed,
    StatusCode::RequestTimeout,
    StatusCode::PayloadTooLarge,
    StatusCode::TooManyRequests,
    StatusCode::InternalServerError,
];

#[test]
fn status_codes_have_their_numbers() {
    let numbers: Vec<u16> = ALL.iter().map(|s| s.code()).collect();
    assert_eq!(numbers, vec![200, 400, 403, 404, 405, 408, 413, 429, 500]);
}

#[test]
fn status_codes_have_their_reason_phrases() {
    let phrases: Vec<&str> = ALL.iter().map(|s| s.reason_phrase()).collect();
    assert_eq!(
        phrases,
        vec![
            "OK",
            "Bad Request",
            "Forbidden",
            "Not Found",
            "Method Not Allowed",
            "Request Timeout",
            "Payload Too Large",
            "Too Many Requests",
            "Internal Server Error",
        ]
    );
}

#[test]
fn status_code_prints_as_its_number() {
    assert_eq!(StatusCode::OK.to_string(), "200");
    assert_eq!(StatusCode::TooManyRequests.to_string(), "429");
    assert_eq!(StatusCode::InternalServerError.to_string(), "500");
}

#[test]
fn new_is_plain_text() {
    let r = Response::new(StatusCode::NotFound, Some("gone".to_string()));
    assert_eq!(r.status_code(), StatusCode::NotFound);
    assert_eq!(r.body(), Some("gone"));
    assert_eq!(r.content_type(), "text/plain; charset=utf-8");
    assert_eq!(TEXT_PLAIN, "text/plain; charset=utf-8");
}

#[test]
fn html_is_html() {
    let r = Response::html(StatusCode::OK, None);
    assert_eq!(r.status_code(), StatusCode::OK);
    assert_eq!(r.body(), None);
    assert_eq!(r.content_type(), "text/html; charset=utf-8");
    assert_eq!(TEXT_HTML, "text/html; charset=utf-8");
}

#[test]
fn with_content_type_keeps_the_type_given() {
    let r = Response::with_content_type(
        StatusCode::OK,
        Some("{}".to_string()),
        "application/json; charset=utf-8".to_string(),
    );
    assert_eq!(r.status_code(), StatusCode::OK);
    assert_eq!(r.body(), Some("{}"));
    assert_eq!(r.content_type(), "application/json; charset=utf-8");
}

#[test]
fn security_error_is_400_with_a_prefix() {
    let r = Response::security_error("Request blocked for security reasons");
    assert_eq!(r.status_code(), StatusCode::BadRequest);
    assert_eq!(r.body(), Some("Security violation: Request blocked for security reasons"));
    assert_eq!(r.content_type(), "text/plain; charset=utf-8");
    assert_eq!(Response::security_error("").body(), Some("Security violation: "));
}

#[test]
fn rate_limited_is_429_with_the_fixed_body() {
    let r = Response::rate_limited();
    assert_eq!(r.status_code(), StatusCode::TooManyRequests);
    assert_eq!(r.body(), Some("Rate limit exceeded. Please try again later."));
    assert_eq!(r.body(), Some(RATE_LIMITED_BODY));
    assert_eq!(r.content_type(), "text/plain; charset=utf-8");
}

#[test]
fn security_headers_are_the_fixed_block() {
    let expected = "X-Content-Type-Options: nosniff\r\n\
                    X-Frame-Options: DENY\r\n\
                    X-XSS-Protection: 1; mode=block\r\n\
                    Referrer-Policy: strict-origin-when-cross-origin\r\n\
                    Content-Security-Policy: default-src 'self'; script-src 'self' 'unsafe-inline'; style-src 'self' 'unsafe-inline'; img-src 'self' data:; object-src 'none'; base-uri 'self'\r\n\
                    Strict-Transport-Security: max-age=31536000; includeSubDomains\r\n\
                    Permissions-Policy: geolocation=(), microphone=(), camera=()\r\n\
                    Cache-Control: no-cache, no-store, must-revalidate\r\n\
                    Pragma: no-cache\r\n\
                    Expires: 0\r\n";
    assert_eq!(SECURITY_HEADERS, expected);
    let r = Response::new(StatusCode::OK, None);
    assert_eq!(r.get_security_headers(), expected);
}

#[test]
fn wire_form_of_a_response_with_a_body() {
    let r = Response::html(StatusCode::OK, Some("<p>hi</p>".to_string()));
    let expected = format!(
        "HTTP/1.1 200 OK\r\nContent-Type: text/html; charset=utf-8\r\nContent-Length: 9\r\nConnection: close\r\nServer: SecureRustServer/1.0\r\n{}\r\n<p>hi</p>",
        SECURITY_HEADERS
    );
    assert_eq!(r.to_wire(), expected);
}

#[test]
fn wire_form_of_a_response_without_a_body() {
    let r = Response::new(StatusCode::NotFound, None);
    let expected = format!(
        "HTTP/1.1 404 Not Found\r\nContent-Type: text/plain; charset=utf-8\r\nContent-Length: 0\r\nConnection: close\r\nServer: SecureRustServer/1.0\r\n{}\r\n",
        SECURITY_HEADERS
    );
    assert_eq!(r.to_wire(), expected);
}

#[test]
fn content_length_counts_bytes_not_characters() {
    let r = Response::new(StatusCode::OK, Some("héllo €".to_string()));
    let wire = r.to_wire();
    assert!(wire.contains("\r\nContent-Length: 10\r\n"));
    assert!(wire.ends_with("\r\n\r\nhéllo €"));
}

#[test]
fn wire_form_always_closes_the_connection_and_names_the_server() {
    for status in ALL {
        let wire = Response::new(status, Some("x".to_string())).to_wire();
        let head = format!("HTTP/1.1 {} {}\r\n", status.code(), status.reason_phrase());
        assert!(wire.starts_with(&head));
        assert!(wire.contains("\r\nConnection: close\r\n"));
        assert!(wire.contains("\r\nServer: SecureRustServer/1.0\r\n"));
        assert!(wire.contains("\r\nX-Frame-Options: DENY\r\n"));
        assert!(wire.contains(SECURITY_HEADERS));
    }
}
