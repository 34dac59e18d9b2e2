use secure_server::http::request::{find_header, parse_query};
use secure_server::http::{Method, ParseError, QueryString, Request};

fn chars(s: &str) -> Vec<char> {
    s.chars().collect()
}

fn parse(text: &str) -> Result<Request, ParseError> {
    Request::parse(text.as_bytes())
}

#[test]
fn a_request_keeps_what_it_was_made_of() {
    let query = QueryString::new(vec![("q".to_string(), "rust".to_string())]);
    let r = Request::new(
        Method::POST,
        "/api/echo".to_string(),
        Some(query),
        Some("localhost:8080".to_string()),
        Some("curl/8.0".to_string()),
    );
    assert_eq!(r.method(), Method::POST);
    assert_eq!(r.method_str(), "POST");
    assert_eq!(r.path(), "/api/echo");
    assert_eq!(r.query_string().unwrap().get("q"), Some("rust"));
    assert_eq!(r.host(), Some("localhost:8080"));
    assert_eq!(r.user_agent(), Some("curl/8.0"));
    let bare = Request::new(Method::GET, "/".to_string(), None, None, None);
    assert!(bare.query_string().is_none());
    assert_eq!(bare.host(), None);
    assert_eq!(bare.user_agent(), None);
}

#[test]
fn methods_have_their_tokens() {
    let all = [
        (Method::GET, "GET"),
        (Method::DELETE, "DELETE"),
        (Method::POST, "POST"),
        (Method::PUT, "PUT"),
        (Method::HEAD, "HEAD"),
        (Method::CONNECT, "CONNECT"),
        (Method::OPTIONS, "OPTIONS"),
        (Method::TRACE, "TRACE"),
        (Method::PATCH, "PATCH"),
    ];
    for (method, token) in all {
        assert_eq!(method.as_str(), token);
        assert_eq!(Method::from_token(&chars(token)), Some(method));
    }
    assert_eq!(Method::from_token(&chars("get")), None);
    assert_eq!(Method::from_token(&chars("GETS")), None);
    assert_eq!(Method::from_token(&chars("")), None);
}

#[test]
fn query_get_finds_the_first_value() {
    let q = QueryString::new(vec![
        ("a".to_string(), "1".to_string()),
        ("b".to_string(), "2".to_string()),
        ("a".to_string(), "3".to_string()),
    ]);
    assert_eq!(q.get("a"), Some("1"));
    assert_eq!(q.get("b"), Some("2"));
    assert_eq!(q.get("c"), None);
    assert_eq!(QueryString::new(vec![]).get("a"), None);
}

#[test]
fn parse_query_splits_at_ampersands_and_equal_signs() {
    let q = parse_query(&chars("a=1&b=2&c&d=&e===&a=7"));
    assert_eq!(q.get("a"), Some("1"));
    assert_eq!(q.get("b"), Some("2"));
    assert_eq!(q.get("c"), Some(""));
    assert_eq!(q.get("d"), Some(""));
    assert_eq!(q.get("e"), Some("=="));
    assert_eq!(q.get("f"), None);
    let empty = parse_query(&chars(""));
    assert_eq!(empty.get(""), Some(""));
}

#[test]
fn find_header_reads_names_without_case_and_values_without_blanks() {
    let lines = chars("Host: localhost:8080\r\nUSER-agent:\t curl/8.0 \r\nX-Empty:\r\n\r\nHost: body");
    assert_eq!(find_header(&lines, &chars("host")), Some("localhost:8080".to_string()));
    assert_eq!(find_header(&lines, &chars("user-agent")), Some("curl/8.0".to_string()));
    assert_eq!(find_header(&lines, &chars("x-empty")), Some("".to_string()));
    assert_eq!(find_header(&lines, &chars("accept")), None);
}

#[test]
fn find_header_stops_at_the_empty_line() {
    let lines = chars("Accept: */*\r\n\r\nHost: in-the-body\r\n");
    assert_eq!(find_header(&lines, &chars("host")), None);
    assert_eq!(find_header(&chars(""), &chars("host")), None);
    let bare_newlines = chars("A: 1\nHost: h\n\n");
    assert_eq!(find_header(&bare_newlines, &chars("host")), Some("h".to_string()));
}

#[test]
fn parse_reads_a_full_request() {
    let r = parse(
        "GET /search?q=rust&page=2 HTTP/1.1\r\nHost: localhost:8080\r\nUser-Agent: test/1.0\r\nAccept: */*\r\n\r\n",
    )
    .unwrap();
    assert_eq!(r.method(), Method::GET);
    assert_eq!(r.path(), "/search");
    let q = r.query_string().unwrap();
    assert_eq!(q.get("q"), Some("rust"));
    assert_eq!(q.get("page"), Some("2"));
    assert_eq!(r.host(), Some("localhost:8080"));
    assert_eq!(r.user_agent(), Some("test/1.0"));
}

#[test]
fn parse_reads_a_request_without_headers() {
    let r = parse("HEAD /hello HTTP/1.1\r\n\r\n").unwrap();
    assert_eq!(r.method(), Method::HEAD);
    assert_eq!(r.path(), "/hello");
    assert!(r.query_string().is_none());
    assert_eq!(r.host(), None);
    assert_eq!(r.user_agent(), None);
    let r = parse("GET / HTTP/1.1\r").unwrap();
    assert_eq!(r.path(), "/");
    assert_eq!(r.host(), None);
}

#[test]
fn parse_keeps_an_empty_query() {
    let r = parse("GET /x? HTTP/1.1\r\n\r\n").unwrap();
    assert_eq!(r.path(), "/x");
    assert_eq!(r.query_string().unwrap().get(""), Some(""));
}

#[test]
fn parse_leaves_the_body_alone() {
    let r = parse("POST /api/echo HTTP/1.1\r\nHost: a\r\n\r\nUser-Agent: not-a-header").unwrap();
    assert_eq!(r.method(), Method::POST);
    assert_eq!(r.host(), Some("a"));
    assert_eq!(r.user_agent(), None);
}

#[test]
fn parse_rejects_bytes_that_are_not_utf8() {
    assert_eq!(Request::parse(&[0xff, 0xfe, 0x20]).err(), Some(ParseError::InvalidEncoding));
    assert_eq!(
        Request::parse(b"GET /\xc3\x28 HTTP/1.1\r\n\r\n").err(),
        Some(ParseError::InvalidEncoding)
    );
}

#[test]
fn parse_reads_utf8_paths() {
    let r = parse("GET /caf\u{e9}.html HTTP/1.1\r\n\r\n").unwrap();
    assert_eq!(r.path(), "/caf\u{e9}.html");
}

#[test]
fn parse_rejects_a_short_request_line() {
    for text in ["", "GET", "GET ", "GET /", "GET / ", "GET / HTTP/1.1", "\n\n\n"] {
        assert_eq!(parse(text).err(), Some(ParseError::InvalidRequest), "text {:?}", text);
    }
}

#[test]
fn parse_rejects_another_protocol() {
    for text in ["GET / HTTP/1.0\r\n\r\n", "GET / HTTP/2 \r\n", "GET / http/1.1\r\n", "GET /  HTTP/1.1\r\n"] {
        assert_eq!(parse(text).err(), Some(ParseError::InvalidProtocol), "text {:?}", text);
    }
}

#[test]
fn parse_checks_the_protocol_before_the_method() {
    assert_eq!(parse("FETCH / HTTP/1.0\r\n").err(), Some(ParseError::InvalidProtocol));
}

#[test]
fn parse_rejects_an_unknown_method() {
    for text in ["FETCH / HTTP/1.1\r\n\r\n", "get / HTTP/1.1\r\n\r\n", " / HTTP/1.1\r\n"] {
        assert_eq!(parse(text).err(), Some(ParseError::InvalidMethod), "text {:?}", text);
    }
}

#[test]
fn parse_errors_have_their_messages() {
    assert_eq!(ParseError::InvalidRequest.message(), "Invalid Request");
    assert_eq!(ParseError::InvalidEncoding.message(), "Invalid Encoding");
    assert_eq!(ParseError::InvalidProtocol.message(), "Invalid Protocol");
    assert_eq!(ParseError::InvalidMethod.message(), "Invalid Method");
}
