use secure_server::http::{Method, Request, Response, StatusCode};
use secure_server::resolver::{content_type_for, is_within, Resolution};
use secure_server::security::SecurityConfig;
use secure_server::security::PathError;
use secure_server::server::{ClientAddr, Handler, Rejection};
use secure_server::website_handler::{Step, WebsiteHandler, NOT_FOUND_BODY};
use std::cell::RefCell;

/// A file system in memory: files by their path below the root, and links by
/// the relative path that leads to them.
struct Files {
    root: Vec<String>,
    files: Vec<(String, Option<String>)>,
    links: Vec<(String, Vec<String>)>,
    asked: RefCell<Vec<String>>,
}

fn parts(path: &str) -> Vec<String> {
    let mut v = vec!["/".to_string()];
    v.extend(path.split('/').filter(|p| !p.is_empty()).map(|p| p.to_string()));
    v
}

impl Files {
    fn new(files: &[(&str, &str)]) -> Files {
        Files {
            root: parts("/srv/www"),
            files: files.iter().map(|(p, c)| (p.to_string(), Some(c.to_string()))).collect(),
            links: Vec::new(),
            asked: RefCell::new(Vec::new()),
        }
    }

    fn canonicalize(&self, relative: &str) -> Option<Vec<String>> {
        self.asked.borrow_mut().push(format!("canonicalize {}", relative));
        for (from, to) in &self.links {
            if from == relative {
                return Some(to.clone());
            }
        }
        let wanted: Vec<&str> = relative.split('/').filter(|p| !p.is_empty() && *p != ".").collect();
        let wanted = wanted.join("/");
        for (path, _) in &self.files {
            if *path == wanted {
                let mut c = self.root.clone();
                c.extend(wanted.split('/').map(|p| p.to_string()));
                return Some(c);
            }
        }
        None
    }

    fn read(&self, canonical: &Vec<String>) -> Option<String> {
        self.asked.borrow_mut().push(format!("read {}", canonical[1..].join("/")));
        for (path, content) in &self.files {
            let mut c = self.root.clone();
            c.extend(path.split('/').map(|p| p.to_string()));
            if c == *canonical {
                return content.clone();
            }
        }
        if *canonical == parts("/etc/passwd") {
            return Some("root:x:0:0".to_string());
        }
        None
    }

    fn asked(&self) -> Vec<String> {
        self.asked.borrow().clone()
    }
}

fn handler(fs: &Files) -> WebsiteHandler {
    WebsiteHandler::new(fs.root.clone(), SecurityConfig::default())
}

fn client() -> ClientAddr {
    ClientAddr { ip: 0xffff_7f00_0001, text: "127.0.0.1".to_string() }
}

fn request(method: Method, path: &str) -> Request {
    Request::new(method, path.to_string(), None, None, None)
}

fn finish(mut step: Step, fs: &Files) -> Response {
    loop {
        step = match step {
            Step::Respond(response) => return response,
            Step::Canonicalize(lookup) => {
                let canonical = fs.canonicalize(lookup.relative());
                lookup.on_canonical(canonical)
            }
            Step::Read(lookup) => {
                let content = fs.read(lookup.canonical());
                lookup.on_read(content)
            }
        };
    }
}

fn serve(h: &mut WebsiteHandler, fs: &Files, method: Method, path: &str, now: u64) -> Response {
    let step = h.handle_request(&request(method, path), &client(), now, 1_700_000_000_000);
    finish(step, fs)
}

fn site() -> Files {
    Files::new(&[
        ("index.html", "<h1>home</h1>"),
        ("hello.html", "<h1>hello</h1>"),
        ("style.css", "body {}"),
        ("img/logo.PNG", "png"),
        ("notes.txt", "notes"),
    ])
}

#[test]
fn get_root_serves_index_html() {
    let fs = site();
    let mut h = handler(&fs);
    let r = serve(&mut h, &fs, Method::GET, "/", 0);
    assert_eq!(r.status_code(), StatusCode::OK);
    assert_eq!(r.body(), Some("<h1>home</h1>"));
    assert_eq!(r.content_type(), "text/html; charset=utf-8");
    assert_eq!(fs.asked(), vec!["canonicalize index.html", "read srv/www/index.html"]);
}

#[test]
fn get_root_falls_back_to_hello_html() {
    let fs = Files::new(&[("hello.html", "<h1>hello</h1>")]);
    let mut h = handler(&fs);
    let r = serve(&mut h, &fs, Method::GET, "/", 0);
    assert_eq!(r.status_code(), StatusCode::OK);
    assert_eq!(r.body(), Some("<h1>hello</h1>"));
    assert_eq!(r.content_type(), "text/html; charset=utf-8");
    assert_eq!(
        fs.asked(),
        vec!["canonicalize index.html", "canonicalize hello.html", "read srv/www/hello.html"]
    );
}

#[test]
fn get_root_without_pages_is_not_found() {
    let fs = Files::new(&[("style.css", "body {}")]);
    let mut h = handler(&fs);
    let r = serve(&mut h, &fs, Method::GET, "/", 0);
    assert_eq!(r.status_code(), StatusCode::NotFound);
    assert_eq!(r.body(), Some("The requested resource was not found."));
    assert_eq!(r.body(), Some(NOT_FOUND_BODY));
    assert_eq!(r.content_type(), "text/plain; charset=utf-8");
}

#[test]
fn get_root_falls_back_when_index_cannot_be_read() {
    let mut fs = Files::new(&[("hello.html", "<h1>hello</h1>")]);
    fs.files.push(("index.html".to_string(), None));
    let mut h = handler(&fs);
    let r = serve(&mut h, &fs, Method::GET, "/", 0);
    assert_eq!(r.body(), Some("<h1>hello</h1>"));
}

#[test]
fn get_hello_serves_hello_html() {
    let fs = site();
    let mut h = handler(&fs);
    let r = serve(&mut h, &fs, Method::GET, "/hello", 0);
    assert_eq!(r.status_code(), StatusCode::OK);
    assert_eq!(r.body(), Some("<h1>hello</h1>"));
    assert_eq!(r.content_type(), "text/html; charset=utf-8");
}

#[test]
fn get_serves_a_file_with_its_content_type() {
    let fs = site();
    let mut h = handler(&fs);
    let r = serve(&mut h, &fs, Method::GET, "/style.css", 0);
    assert_eq!(r.status_code(), StatusCode::OK);
    assert_eq!(r.body(), Some("body {}"));
    assert_eq!(r.content_type(), "text/css; charset=utf-8");
    let r = serve(&mut h, &fs, Method::GET, "/notes.txt", 1);
    assert_eq!(r.content_type(), "text/plain; charset=utf-8");
}

#[test]
fn the_content_type_goes_by_the_extension_as_written() {
    let fs = site();
    let mut h = handler(&fs);
    let r = serve(&mut h, &fs, Method::GET, "/img/logo.PNG", 0);
    assert_eq!(r.status_code(), StatusCode::OK);
    assert_eq!(r.body(), Some("png"));
    assert_eq!(r.content_type(), "application/octet-stream");
}

#[test]
fn a_missing_file_is_not_found() {
    let fs = site();
    let mut h = handler(&fs);
    let r = serve(&mut h, &fs, Method::GET, "/missing.html", 0);
    assert_eq!(r.status_code(), StatusCode::NotFound);
    assert_eq!(r.body(), Some("The requested resource was not found."));
    assert_eq!(fs.asked(), vec!["canonicalize missing.html"]);
}

#[test]
fn traversal_is_turned_away_before_the_file_system_is_asked() {
    let fs = site();
    let mut h = handler(&fs);
    let r = serve(&mut h, &fs, Method::GET, "/../etc/passwd", 0);
    assert_eq!(r.status_code(), StatusCode::BadRequest);
    assert_eq!(r.body(), Some("Security violation: Request blocked for security reasons"));
    assert!(fs.asked().is_empty());
    assert_eq!(h.requests_served(), 0);
}

#[test]
fn every_policy_failure_gets_the_same_response() {
    let fs = site();
    let mut h = handler(&fs);
    let long = format!("/{}.html", "a".repeat(300));
    for path in ["/a/../b.html", "/etc/hosts.html", "/.git/x.html", "/a\0.html", long.as_str()] {
        for method in [Method::GET, Method::HEAD, Method::POST, Method::OPTIONS] {
            let r = serve(&mut h, &fs, method, path, 0);
            assert_eq!(r.status_code(), StatusCode::BadRequest);
            assert_eq!(r.body(), Some("Security violation: Request blocked for security reasons"));
        }
    }
    assert!(fs.asked().is_empty());
}

#[test]
fn a_blocked_extension_is_not_found_without_a_lookup() {
    let fs = Files::new(&[("tool.exe", "MZ"), ("README", "read me")]);
    let mut h = handler(&fs);
    for path in ["/tool.exe", "/README", "/archive.tar.gz"] {
        let r = serve(&mut h, &fs, Method::GET, path, 0);
        assert_eq!(r.status_code(), StatusCode::NotFound);
        assert_eq!(r.body(), Some("The requested resource was not found."));
    }
    assert!(fs.asked().is_empty());
}

#[test]
fn a_link_out_of_the_sandbox_is_not_read() {
    let mut fs = site();
    fs.links.push(("leak.txt".to_string(), parts("/etc/passwd")));
    let mut h = handler(&fs);
    let r = serve(&mut h, &fs, Method::GET, "/leak.txt", 0);
    assert_eq!(r.status_code(), StatusCode::NotFound);
    assert_eq!(r.body(), Some("The requested resource was not found."));
    assert_eq!(fs.asked(), vec!["canonicalize leak.txt"]);
}

#[test]
fn a_sibling_directory_with_the_root_s_name_as_prefix_is_outside() {
    let mut fs = site();
    fs.links.push(("twin.txt".to_string(), parts("/srv/www-private/twin.txt")));
    let mut h = handler(&fs);
    assert_eq!(serve(&mut h, &fs, Method::GET, "/twin.txt", 0).status_code(), StatusCode::NotFound);
    assert!(!is_within(&parts("/srv/www"), &parts("/srv/www-private/twin.txt")));
    assert!(!is_within(&parts("/srv/www"), &parts("/srv")));
    assert!(is_within(&parts("/srv/www"), &parts("/srv/www")));
    assert!(is_within(&parts("/srv/www"), &parts("/srv/www/a/b.txt")));
    assert!(is_within(&parts("/"), &parts("/anything")));
}

#[test]
fn a_link_inside_the_sandbox_is_served() {
    let mut fs = site();
    fs.links.push(("alias.html".to_string(), parts("/srv/www/index.html")));
    let mut h = handler(&fs);
    let r = serve(&mut h, &fs, Method::GET, "/alias.html", 0);
    assert_eq!(r.status_code(), StatusCode::OK);
    assert_eq!(r.body(), Some("<h1>home</h1>"));
}

#[test]
fn redundant_leading_slashes_resolve_to_the_same_file() {
    let fs = site();
    let mut h = handler(&fs);
    let plain = serve(&mut h, &fs, Method::GET, "/style.css", 0);
    let doubled = serve(&mut h, &fs, Method::GET, "///style.css", 1);
    let dotted = serve(&mut h, &fs, Method::GET, "/./style.css", 2);
    for r in [&doubled, &dotted] {
        assert_eq!(r.status_code(), plain.status_code());
        assert_eq!(r.body(), plain.body());
        assert_eq!(r.content_type(), plain.content_type());
    }
    assert_eq!(plain.body(), Some("body {}"));
}

#[test]
fn repeated_requests_for_a_file_get_the_same_response() {
    let fs = site();
    let mut h = handler(&fs);
    let first = serve(&mut h, &fs, Method::GET, "/index.html", 0);
    for now in 1..20 {
        let again = serve(&mut h, &fs, Method::GET, "/index.html", now);
        assert_eq!(again.status_code(), first.status_code());
        assert_eq!(again.body(), first.body());
        assert_eq!(again.content_type(), first.content_type());
        assert_eq!(again.to_wire(), first.to_wire());
    }
}

#[test]
fn head_hello_has_headers_only() {
    let fs = site();
    let mut h = handler(&fs);
    let r = serve(&mut h, &fs, Method::HEAD, "/hello", 0);
    assert_eq!(r.status_code(), StatusCode::OK);
    assert_eq!(r.body(), None);
    assert_eq!(r.content_type(), "text/html; charset=utf-8");
    let wire = r.to_wire();
    assert!(wire.starts_with("HTTP/1.1 200 OK\r\n"));
    assert!(wire.contains("\r\nContent-Length: 0\r\n"));
    assert!(wire.ends_with("\r\n\r\n"));
}

#[test]
fn head_root_mirrors_get() {
    let fs = Files::new(&[("hello.html", "<h1>hello</h1>")]);
    let mut h = handler(&fs);
    let r = serve(&mut h, &fs, Method::HEAD, "/", 0);
    assert_eq!(r.status_code(), StatusCode::OK);
    assert_eq!(r.body(), None);
    assert_eq!(r.content_type(), "text/html; charset=utf-8");
    let empty = Files::new(&[]);
    let mut h = handler(&empty);
    let r = serve(&mut h, &empty, Method::HEAD, "/", 0);
    assert_eq!(r.status_code(), StatusCode::NotFound);
    assert_eq!(r.body(), None);
    assert_eq!(r.content_type(), "text/plain; charset=utf-8");
}

#[test]
fn head_of_a_file_has_the_file_s_content_type_and_no_body() {
    let fs = site();
    let mut h = handler(&fs);
    let r = serve(&mut h, &fs, Method::HEAD, "/style.css", 0);
    assert_eq!(r.status_code(), StatusCode::OK);
    assert_eq!(r.body(), None);
    assert_eq!(r.content_type(), "text/css; charset=utf-8");
    let r = serve(&mut h, &fs, Method::HEAD, "/missing.css", 1);
    assert_eq!(r.status_code(), StatusCode::NotFound);
    assert_eq!(r.body(), None);
    assert_eq!(r.content_type(), "text/plain; charset=utf-8");
}

#[test]
fn head_mirrors_get_but_for_the_body() {
    let mut fs = site();
    fs.links.push(("leak.txt".to_string(), parts("/etc/passwd")));
    let mut h = handler(&fs);
    let paths = [
        "/",
        "/hello",
        "/index.html",
        "/style.css",
        "/notes.txt",
        "/img/logo.PNG",
        "/missing.html",
        "/tool.exe",
        "/leak.txt",
        "/README",
    ];
    let mut now = 0;
    for path in paths {
        let got = serve(&mut h, &fs, Method::GET, path, now);
        let head = serve(&mut h, &fs, Method::HEAD, path, now + 1);
        now += 2;
        assert_eq!(head.status_code(), got.status_code(), "path {}", path);
        assert_eq!(head.content_type(), got.content_type(), "path {}", path);
        assert_eq!(head.body(), None, "path {}", path);
    }
}

#[test]
fn options_is_an_empty_200() {
    let fs = site();
    let mut h = handler(&fs);
    let r = serve(&mut h, &fs, Method::OPTIONS, "/anything", 0);
    assert_eq!(r.status_code(), StatusCode::OK);
    assert_eq!(r.body(), None);
    assert_eq!(r.content_type(), "text/plain; charset=utf-8");
    assert!(fs.asked().is_empty());
}

#[test]
fn other_methods_are_not_allowed() {
    let fs = site();
    let mut h = handler(&fs);
    for method in [
        Method::POST,
        Method::PUT,
        Method::DELETE,
        Method::PATCH,
        Method::TRACE,
        Method::CONNECT,
    ] {
        let r = serve(&mut h, &fs, method, "/index.html", 0);
        assert_eq!(r.status_code(), StatusCode::MethodNotAllowed);
        assert_eq!(r.body(), Some("Method not allowed"));
        assert_eq!(r.content_type(), "text/plain; charset=utf-8");
    }
    assert!(fs.asked().is_empty());
}

#[test]
fn the_101st_rapid_ping_is_rate_limited() {
    let fs = site();
    let mut h = handler(&fs);
    for i in 0..100u64 {
        let r = serve(&mut h, &fs, Method::GET, "/api/ping", i);
        assert_eq!(r.status_code(), StatusCode::OK, "request {}", i + 1);
        assert_eq!(r.body(), Some(r#"{"status": "ok", "message": "pong"}"#));
    }
    let r = serve(&mut h, &fs, Method::GET, "/api/ping", 100);
    assert_eq!(r.status_code(), StatusCode::TooManyRequests);
    assert_eq!(r.body(), Some("Rate limit exceeded. Please try again later."));
    assert_eq!(r.content_type(), "text/plain; charset=utf-8");
    assert!(r.to_wire().starts_with("HTTP/1.1 429 Too Many Requests\r\n"));
    assert_eq!(h.requests_served(), 100);
    assert_eq!(h.rate_limiter().recorded(client().ip), 100);
}

#[test]
fn the_rate_limit_comes_before_the_path_policy() {
    let fs = site();
    let mut h = handler(&fs);
    for i in 0..100u64 {
        let r = serve(&mut h, &fs, Method::GET, "/../x", i);
        assert_eq!(r.status_code(), StatusCode::BadRequest);
    }
    let r = serve(&mut h, &fs, Method::GET, "/../x", 100);
    assert_eq!(r.status_code(), StatusCode::TooManyRequests);
    assert_eq!(h.requests_served(), 0);
}

#[test]
fn another_client_is_not_held_back() {
    let fs = site();
    let mut h = handler(&fs);
    for i in 0..101u64 {
        serve(&mut h, &fs, Method::GET, "/api/ping", i);
    }
    let other = ClientAddr { ip: 9, text: "::9".to_string() };
    let step = h.handle_request(&request(Method::GET, "/api/ping"), &other, 101, 0);
    assert_eq!(finish(step, &fs).status_code(), StatusCode::OK);
}

#[test]
fn api_requests_are_answered_without_the_file_system() {
    let fs = site();
    let mut h = handler(&fs);
    let r = serve(&mut h, &fs, Method::GET, "/api/users/2", 0);
    assert_eq!(r.status_code(), StatusCode::OK);
    assert_eq!(
        r.body(),
        Some(r#"{"success": true, "data": {"id": 2, "name": "Bob", "email": "bob@example.com"}, "message": "User found"}"#)
    );
    let r = serve(&mut h, &fs, Method::GET, "/api/users/99", 1);
    assert_eq!(r.status_code(), StatusCode::NotFound);
    assert!(r.body().unwrap().contains(r#""success": false"#));
    let r = serve(&mut h, &fs, Method::GET, "/api/unknown.html", 2);
    assert_eq!(r.status_code(), StatusCode::NotFound);
    assert_eq!(r.content_type(), "application/json; charset=utf-8");
    assert!(fs.asked().is_empty());
}

#[test]
fn echo_names_the_client() {
    let fs = site();
    let mut h = handler(&fs);
    let step = h.handle_request(&request(Method::POST, "/api/echo"), &client(), 0, 1_700_000_000_000);
    let r = finish(step, &fs);
    assert!(r.body().unwrap().contains(r#""client_ip": "127.0.0.1", "timestamp": 1700000000}"#));
}

#[test]
fn served_counts_the_requests_that_reach_the_router() {
    let fs = site();
    let mut h = handler(&fs);
    serve(&mut h, &fs, Method::GET, "/index.html", 0);
    serve(&mut h, &fs, Method::POST, "/index.html", 1);
    serve(&mut h, &fs, Method::GET, "/../x", 2);
    serve(&mut h, &fs, Method::GET, "/api/ping", 3);
    assert_eq!(h.requests_served(), 3);
    let r = serve(&mut h, &fs, Method::GET, "/api/info", 4);
    assert!(r.body().unwrap().contains(r#""requests_served": 4,"#));
}

#[test]
fn read_file_goes_through_its_steps() {
    let fs = site();
    let h = handler(&fs);
    let pending = match h.read_file("//notes.txt") {
        Resolution::Canonicalize(p) => p,
        _ => panic!("the path passes the policy"),
    };
    assert_eq!(pending.relative(), "notes.txt");
    let file = match pending.on_canonical(Some(parts("/srv/www/notes.txt"))) {
        Resolution::Read(f) => f,
        _ => panic!("the path lies in the sandbox"),
    };
    assert_eq!(*file.canonical(), parts("/srv/www/notes.txt"));
    match file.on_read(Some("notes".to_string())) {
        Resolution::Found(found) => {
            assert_eq!(found.content, "notes");
            assert_eq!(found.content_type, "text/plain; charset=utf-8");
        }
        _ => panic!("the file was read"),
    }
}

#[test]
fn read_file_gives_up_at_each_step() {
    let fs = site();
    let h = handler(&fs);
    assert!(matches!(h.read_file("/../notes.txt"), Resolution::NotFound));
    assert!(matches!(h.read_file("/a\0.txt"), Resolution::NotFound));
    assert!(matches!(h.read_file("/etc/notes.txt"), Resolution::NotFound));
    assert!(matches!(h.read_file("/notes.exe"), Resolution::NotFound));
    assert!(matches!(h.read_file("/notes"), Resolution::NotFound));
    let pending = |path: &str| match h.read_file(path) {
        Resolution::Canonicalize(p) => p,
        _ => panic!("the path passes the policy"),
    };
    assert!(matches!(pending("/notes.txt").on_canonical(None), Resolution::NotFound));
    assert!(matches!(
        pending("/notes.txt").on_canonical(Some(parts("/etc/notes.txt"))),
        Resolution::NotFound
    ));
    match pending("/notes.txt").on_canonical(Some(parts("/srv/www/notes.txt"))) {
        Resolution::Read(f) => assert!(matches!(f.on_read(None), Resolution::NotFound)),
        _ => panic!("the path lies in the sandbox"),
    }
}

#[test]
fn content_types_follow_the_table() {
    let h = WebsiteHandler::new(vec![], SecurityConfig::default());
    let table = [
        ("a.html", "text/html; charset=utf-8"),
        ("a.css", "text/css; charset=utf-8"),
        ("a.js", "application/javascript; charset=utf-8"),
        ("a.json", "application/json; charset=utf-8"),
        ("a.xml", "application/xml; charset=utf-8"),
        ("a.txt", "text/plain; charset=utf-8"),
        ("a.png", "image/png"),
        ("a.jpg", "image/jpeg"),
        ("a.jpeg", "image/jpeg"),
        ("a.gif", "image/gif"),
        ("a.svg", "image/svg+xml"),
        ("a.ico", "image/x-icon"),
        ("a.webp", "image/webp"),
        ("a.pdf", "application/pdf"),
        ("a.bin", "application/octet-stream"),
        ("a.HTML", "application/octet-stream"),
        ("a.tar.gz", "application/octet-stream"),
        ("a.", "application/octet-stream"),
        ("", "application/octet-stream"),
        ("html", "text/html; charset=utf-8"),
        ("dir.d/css", "application/octet-stream"),
    ];
    for (path, expected) in table {
        assert_eq!(h.get_content_type(path), expected, "path {:?}", path);
        assert_eq!(content_type_for(path), expected, "path {:?}", path);
    }
}

#[test]
fn safe_error_responses_hide_the_message() {
    let h = WebsiteHandler::new(vec![], SecurityConfig::default());
    let r = h.create_safe_error_response(StatusCode::NotFound, "no /srv/www/secret.html");
    assert_eq!(r.status_code(), StatusCode::NotFound);
    assert_eq!(r.body(), Some("The requested resource was not found."));
    let r = h.create_safe_error_response(StatusCode::Forbidden, "x");
    assert_eq!(r.body(), Some("Access to this resource is forbidden."));
    let r = h.create_safe_error_response(StatusCode::BadRequest, "x");
    assert_eq!(r.body(), Some("The request was invalid."));
    let r = h.create_safe_error_response(StatusCode::InternalServerError, "try later");
    assert_eq!(r.status_code(), StatusCode::InternalServerError);
    assert_eq!(r.body(), Some("try later"));
    assert_eq!(r.content_type(), "text/plain; charset=utf-8");
}

#[test]
fn the_policy_responses_of_a_handler_are_fixed() {
    let h = WebsiteHandler::new(vec![], SecurityConfig::default());
    let r = h.handle_security_violation("Forbidden path", &client());
    assert_eq!(r.status_code(), StatusCode::BadRequest);
    assert_eq!(r.body(), Some("Security violation: Request blocked for security reasons"));
}

#[test]
fn the_handler_says_why_it_turns_a_request_away() {
    let fs = site();
    let mut h = handler(&fs);
    let long = format!("/{}.html", "a".repeat(300));
    let cases = [
        (Method::GET, "/index.html", None),
        (Method::HEAD, "/", None),
        (Method::OPTIONS, "/tool.exe", None),
        (Method::GET, "/api/ping", None),
        (Method::DELETE, "/api/ping", None),
        (Method::GET, "/api/nothing.exe", None),
        (Method::GET, "/../etc/passwd", Some(Rejection::Path(PathError::InvalidCharacters))),
        (Method::POST, "/etc/passwd", Some(Rejection::Path(PathError::ForbiddenPath))),
        (Method::GET, long.as_str(), Some(Rejection::Path(PathError::PathTooLong))),
        (Method::GET, "/tool.exe", Some(Rejection::BlockedExtension)),
        (Method::HEAD, "/README", Some(Rejection::BlockedExtension)),
        (Method::POST, "/index.html", Some(Rejection::MethodNotAllowed)),
        (Method::DELETE, "/tool.exe", Some(Rejection::MethodNotAllowed)),
    ];
    for (method, path, expected) in cases {
        let reason = h.rejection(&request(method, path), &client(), 0);
        assert_eq!(reason, expected, "{:?} {}", method, path);
    }
    // Asking for the reason records nothing.
    assert_eq!(h.rate_limiter().clients(), 0);
    assert_eq!(h.requests_served(), 0);
}

#[test]
fn the_handler_names_the_rate_limit_for_a_client_over_it() {
    let fs = site();
    let mut h = handler(&fs);
    for i in 0..100u64 {
        assert_eq!(h.rejection(&request(Method::GET, "/api/ping"), &client(), i), None);
        serve(&mut h, &fs, Method::GET, "/api/ping", i);
    }
    let ping = request(Method::GET, "/api/ping");
    assert_eq!(h.rejection(&ping, &client(), 100), Some(Rejection::RateLimited));
    assert_eq!(
        h.rejection(&request(Method::GET, "/../x"), &client(), 100),
        Some(Rejection::RateLimited)
    );
    let other = ClientAddr { ip: 9, text: "::9".to_string() };
    assert_eq!(h.rejection(&ping, &other, 100), None);
    // One window after the first request the client is let through again.
    assert_eq!(h.rejection(&ping, &client(), 60_000_000_000), None);
    assert_eq!(h.rate_limiter().recorded(client().ip), 100);
}

#[test]
fn the_limiter_answers_without_recording() {
    let fs = site();
    let mut h = handler(&fs);
    assert!(h.rate_limiter().would_allow(client().ip, 0));
    assert_eq!(h.rate_limiter().clients(), 0);
    for i in 0..100u64 {
        serve(&mut h, &fs, Method::GET, "/api/ping", i);
    }
    assert!(!h.rate_limiter().would_allow(client().ip, 100));
    assert!(h.rate_limiter().would_allow(7, 100));
    assert!(h.rate_limiter().would_allow(client().ip, 60_000_000_000));
    assert_eq!(h.rate_limiter().recorded(client().ip), 100);
}

#[test]
fn a_lookup_says_when_a_path_lies_outside_the_sandbox() {
    let fs = site();
    let mut h = handler(&fs);
    let step = h.handle_request(&request(Method::GET, "/notes.txt"), &client(), 0, 0);
    let lookup = match step {
        Step::Canonicalize(lookup) => lookup,
        _ => panic!("a lookup was expected"),
    };
    assert_eq!(lookup.rejection(None), None);
    assert_eq!(lookup.rejection(Some(&parts("/srv/www/notes.txt"))), None);
    assert_eq!(lookup.rejection(Some(&parts("/etc/passwd"))), Some(Rejection::OutsideSandbox));
    assert_eq!(
        lookup.rejection(Some(&parts("/srv/www-private/notes.txt"))),
        Some(Rejection::OutsideSandbox)
    );
    let pending = match h.read_file("/notes.txt") {
        Resolution::Canonicalize(p) => p,
        _ => panic!("the path passes the policy"),
    };
    assert!(pending.admits(&parts("/srv/www/notes.txt")));
    assert!(!pending.admits(&parts("/srv")));
}
