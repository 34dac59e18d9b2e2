//! The JSON endpoints under `/api/`: a route table from method and path to
//! endpoint, and the response of each endpoint.

use crate::http::request::{first_value, Request, RequestView};
use crate::http::response::{Response, ResponseView};
use crate::http::{Method, StatusCode};
use crate::text::{
    chars_of, decimal, leading_repeats, parse_u32, parsed_u32, push_decimal, quoted, same_chars,
    slice_of, starts_with, to_quoted, without_leading,
};
use vstd::prelude::*;

verus! {

/// The content type of every response of the API.
pub const APPLICATION_JSON: &'static str = "application/json; charset=utf-8";

/// The version that the server reports of itself.
pub const SERVER_VERSION: &'static str = "0.1.0";

/// The prefix that sets the API apart from the static files.
pub const API_PREFIX: &'static str = "/api/";

/// The list of users, laid out as it is sent.
pub const USERS_JSON: &'static str =
    "[\n                    {\"id\": 1, \"name\": \"Alice\", \"email\": \"alice@example.com\"},\n                    {\"id\": 2, \"name\": \"Bob\", \"email\": \"bob@example.com\"},\n                    {\"id\": 3, \"name\": \"Charlie\", \"email\": \"charlie@example.com\"}\n                ]";

/// A JSON response.
pub open spec fn json(status_code: StatusCode, body: Seq<char>) -> ResponseView {
    ResponseView { status_code, body: Some(body), content_type: APPLICATION_JSON@ }
}

/// The name of the user with the given id, for ids 1 to 3.
pub open spec fn user_name(id: u32) -> Seq<char> {
    if id == 1 {
        "Alice"@
    } else if id == 2 {
        "Bob"@
    } else {
        "Charlie"@
    }
}

/// The email address of the user with the given id, for ids 1 to 3.
pub open spec fn user_email(id: u32) -> Seq<char> {
    if id == 1 {
        "alice@example.com"@
    } else if id == 2 {
        "bob@example.com"@
    } else {
        "charlie@example.com"@
    }
}

pub open spec fn ping_body() -> Seq<char> {
    "{\"status\": \"ok\", \"message\": \"pong\"}"@
}

pub open spec fn info_body(served: nat, unix_secs: nat) -> Seq<char> {
    "{\"server\": \"Rust HTTP Server\", \"version\": \""@ + SERVER_VERSION@
        + "\", \"requests_served\": "@ + decimal(served) + ", \"timestamp\": "@ + decimal(
        unix_secs,
    ) + "}"@
}

pub open spec fn users_body() -> Seq<char> {
    "{\"success\": true, \"data\": "@ + USERS_JSON@
        + ", \"message\": \"Users retrieved successfully\"}"@
}

pub open spec fn user_body(id: u32) -> Seq<char> {
    "{\"success\": true, \"data\": {\"id\": "@ + decimal(id as nat) + ", \"name\": \""@
        + user_name(id) + "\", \"email\": \""@ + user_email(id)
        + "\"}, \"message\": \"User found\"}"@
}

pub open spec fn user_not_found_body() -> Seq<char> {
    "{\"success\": false, \"data\": null, \"message\": \"User not found\"}"@
}

pub open spec fn invalid_user_id_body() -> Seq<char> {
    "{\"success\": false, \"data\": null, \"message\": \"Invalid user ID\"}"@
}

pub open spec fn echo_body(
    method: Seq<char>,
    path: Seq<char>,
    client: Seq<char>,
    unix_secs: nat,
) -> Seq<char> {
    "{\"success\": true, \"data\": {\"method\": \""@ + method + "\", \"path\": \""@ + path
        + "\", \"client_ip\": \""@ + client + "\", \"timestamp\": "@ + decimal(unix_secs)
        + "}, \"message\": \"Echo successful\"}"@
}

/// The data of a search whose parameter `q` has the `{:?}` form `shown`.
pub open spec fn search_hit(shown: Seq<char>) -> Seq<char> {
    "{\"query\": \""@ + shown + "\", \"results\": [\"result1\", \"result2\", \"result3\"]}"@
}

/// The data of a search: the parameter `q` echoed in its `{:?}` form, or
/// what is missing.
pub open spec fn search_data(query: Option<Seq<(Seq<char>, Seq<char>)>>) -> Seq<char> {
    match query {
        Some(pairs) => match first_value(pairs, "q"@) {
            Some(q) => search_hit(quoted(q)),
            None => "{\"error\": \"Missing 'q' parameter\"}"@,
        },
        None => "{\"error\": \"No query parameters provided\"}"@,
    }
}

pub open spec fn search_body(data: Seq<char>) -> Seq<char> {
    "{\"success\": true, \"data\": "@ + data + ", \"message\": \"Search completed\"}"@
}

pub open spec fn time_body(unix_millis: nat) -> Seq<char> {
    "{\"success\": true, \"data\": {\"unix_timestamp\": "@ + decimal(unix_millis / 1000)
        + ", \"milliseconds\": "@ + decimal(unix_millis)
        + "}, \"message\": \"Current server time\"}"@
}

pub open spec fn endpoint_not_found_body() -> Seq<char> {
    "{\"success\": false, \"data\": null, \"message\": \"API endpoint not found\"}"@
}

/// The answer to a lookup of the user whose id is written `id_text`: the
/// user for 1 to 3, 404 for any other number, 400 for what is no number.
pub open spec fn user_lookup(id_text: Seq<char>) -> ResponseView {
    match parsed_u32(id_text) {
        Some(id) => if 1 <= id <= 3 {
            json(StatusCode::OK, user_body(id))
        } else {
            json(StatusCode::NotFound, user_not_found_body())
        },
        None => json(StatusCode::BadRequest, invalid_user_id_body()),
    }
}

/// The path lies under the API prefix.
pub open spec fn is_api_path(path: Seq<char>) -> bool {
    API_PREFIX@.is_prefix_of(path)
}

/// The endpoints of the API.
#[derive(Copy, Clone, Debug, PartialEq, Eq, Structural)]
pub enum Endpoint {
    Ping,
    Info,
    Users,
    User,
    Echo,
    Search,
    Time,
    /// What answers a path under the prefix that no other row takes.
    NotFound,
}

/// A row of the route table.
pub struct Route {
    /// The method that the row is for; `None` where it is for every method.
    pub method: Option<Method>,
    /// The path that the row is for.
    pub path: &'static str,
    /// Whether the row is for every path that begins with `path`, or for
    /// `path` alone.
    pub prefix: bool,
    pub endpoint: Endpoint,
}

impl Route {
    /// The row is for this method and path.
    pub open spec fn fits(self, method: Method, path: Seq<char>) -> bool {
        &&& match self.method {
            Some(m) => m == method,
            None => true,
        }
        &&& if self.prefix {
            self.path@.is_prefix_of(path)
        } else {
            path == self.path@
        }
    }
}

/// The route table. Its rows are read from the top, so a row takes only what
/// the rows above it leave.
pub open spec fn route_table() -> Seq<Route> {
    seq![
        Route { method: Some(Method::GET), path: "/api/ping", prefix: false, endpoint: Endpoint::Ping },
        Route { method: Some(Method::GET), path: "/api/info", prefix: false, endpoint: Endpoint::Info },
        Route { method: Some(Method::GET), path: "/api/users", prefix: false, endpoint: Endpoint::Users },
        Route { method: Some(Method::GET), path: "/api/users/", prefix: true, endpoint: Endpoint::User },
        Route { method: Some(Method::POST), path: "/api/echo", prefix: false, endpoint: Endpoint::Echo },
        Route { method: Some(Method::GET), path: "/api/search", prefix: false, endpoint: Endpoint::Search },
        Route { method: Some(Method::GET), path: "/api/time", prefix: false, endpoint: Endpoint::Time },
        Route { method: None, path: API_PREFIX, prefix: true, endpoint: Endpoint::NotFound },
    ]
}

/// The endpoint of the first row of `table` that is for this method and
/// path.
pub open spec fn first_fit(table: Seq<Route>, method: Method, path: Seq<char>) -> Option<Endpoint>
    decreases table.len(),
{
    if table.len() == 0 {
        None
    } else if table[0].fits(method, path) {
        Some(table[0].endpoint)
    } else {
        first_fit(table.drop_first(), method, path)
    }
}

/// The response of an endpoint. `client` is the client's address as text,
/// `served` the number of requests routed so far, this one included, and
/// `unix_millis` the wall-clock time in milliseconds since the Unix epoch.
pub open spec fn endpoint_response(
    endpoint: Endpoint,
    request: RequestView,
    client: Seq<char>,
    served: nat,
    unix_millis: nat,
) -> ResponseView {
    match endpoint {
        Endpoint::Ping => json(StatusCode::OK, ping_body()),
        Endpoint::Info => json(StatusCode::OK, info_body(served, unix_millis / 1000)),
        Endpoint::Users => json(StatusCode::OK, users_body()),
        Endpoint::User => user_lookup(without_leading(request.path, "/api/users/"@)),
        Endpoint::Echo => json(
            StatusCode::OK,
            echo_body(request.method.name(), request.path, client, unix_millis / 1000),
        ),
        Endpoint::Search => json(StatusCode::OK, search_body(search_data(request.query))),
        Endpoint::Time => json(StatusCode::OK, time_body(unix_millis)),
        Endpoint::NotFound => json(StatusCode::NotFound, endpoint_not_found_body()),
    }
}

/// The response of the API to a request, or `None` where no row of the
/// route table is for it.
pub open spec fn api_response(
    request: RequestView,
    client: Seq<char>,
    served: nat,
    unix_millis: nat,
) -> Option<ResponseView> {
    match first_fit(route_table(), request.method, request.path) {
        Some(endpoint) => Some(endpoint_response(endpoint, request, client, served, unix_millis)),
        None => None,
    }
}

/// The API answers exactly the paths under its prefix: the last row of the
/// table takes what the others leave of them, and no row takes any other
/// path.
pub proof fn api_answers_its_prefix(
    request: RequestView,
    client: Seq<char>,
    served: nat,
    unix_millis: nat,
)
    ensures
        api_response(request, client, served, unix_millis) is Some <==> is_api_path(request.path),
{
    reveal_strlit("/api/");
    reveal_strlit("/api/ping");
    reveal_strlit("/api/info");
    reveal_strlit("/api/users");
    reveal_strlit("/api/users/");
    reveal_strlit("/api/echo");
    reveal_strlit("/api/search");
    reveal_strlit("/api/time");
    reveal_with_fuel(first_fit, 9);
    let path = request.path;
    let prefix = "/api/"@;
    if path == "/api/ping"@ || path == "/api/info"@ || path == "/api/users"@ || path
        == "/api/echo"@ || path == "/api/search"@ || path == "/api/time"@ {
        assert(path.subrange(0, 5) =~= prefix);
    }
    if "/api/users/"@.is_prefix_of(path) {
        assert(path.subrange(0, 5) =~= path.subrange(0, 11).subrange(0, 5));
        assert("/api/users/"@.subrange(0, 5) =~= prefix);
    }
}

fn json_response(status_code: StatusCode, body: String) -> (r: Response)
    ensures
        r@ == json(status_code, body@),
{
    Response::with_content_type(status_code, Some(body), APPLICATION_JSON.to_owned())
}

/// Answers a lookup of the user whose id is written `id_text`.
pub fn lookup_user(id_text: &Vec<char>) -> (r: Response)
    ensures
        r@ == user_lookup(id_text@),
{
    match parse_u32(id_text) {
        Some(id) => {
            if id >= 1 && id <= 3 {
                let (name, email) = if id == 1 {
                    ("Alice", "alice@example.com")
                } else if id == 2 {
                    ("Bob", "bob@example.com")
                } else {
                    ("Charlie", "charlie@example.com")
                };
                let mut body = "{\"success\": true, \"data\": {\"id\": ".to_owned();
                push_decimal(&mut body, id as u128);
                body.append(", \"name\": \"");
                body.append(name);
                body.append("\", \"email\": \"");
                body.append(email);
                body.append("\"}, \"message\": \"User found\"}");
                json_response(StatusCode::OK, body)
            } else {
                json_response(
                    StatusCode::NotFound,
                    "{\"success\": false, \"data\": null, \"message\": \"User not found\"}".to_owned(),
                )
            }
        },
        None => json_response(
            StatusCode::BadRequest,
            "{\"success\": false, \"data\": null, \"message\": \"Invalid user ID\"}".to_owned(),
        ),
    }
}

/// The data of a search whose parameter `q` reads `shown` once it is put in
/// its `{:?}` form.
pub fn search_result(shown: &str) -> (r: String)
    ensures
        r@ == search_hit(shown@),
{
    let mut data = "{\"query\": \"".to_owned();
    data.append(shown);
    data.append("\", \"results\": [\"result1\", \"result2\", \"result3\"]}");
    data
}

/// The route table.
pub fn routes() -> (table: Vec<Route>)
    ensures
        table@ == route_table(),
{
    let mut table: Vec<Route> = Vec::new();
    table.push(
        Route { method: Some(Method::GET), path: "/api/ping", prefix: false, endpoint: Endpoint::Ping },
    );
    table.push(
        Route { method: Some(Method::GET), path: "/api/info", prefix: false, endpoint: Endpoint::Info },
    );
    table.push(
        Route { method: Some(Method::GET), path: "/api/users", prefix: false, endpoint: Endpoint::Users },
    );
    table.push(
        Route { method: Some(Method::GET), path: "/api/users/", prefix: true, endpoint: Endpoint::User },
    );
    table.push(
        Route { method: Some(Method::POST), path: "/api/echo", prefix: false, endpoint: Endpoint::Echo },
    );
    table.push(
        Route { method: Some(Method::GET), path: "/api/search", prefix: false, endpoint: Endpoint::Search },
    );
    table.push(
        Route { method: Some(Method::GET), path: "/api/time", prefix: false, endpoint: Endpoint::Time },
    );
    table.push(Route { method: None, path: API_PREFIX, prefix: true, endpoint: Endpoint::NotFound });
    assert(table@ =~= route_table());
    table
}

/// Finds the endpoint for a method and a path: that of the first row of the
/// route table that is for them.
pub fn find_endpoint(method: Method, path: &str) -> (r: Option<Endpoint>)
    ensures
        r == first_fit(route_table(), method, path@),
{
    let table = routes();
    let p = chars_of(path);
    let mut i: usize = 0;
    assert(table@.skip(0) =~= table@);
    while i < table.len()
        invariant
            i <= table.len(),
            p@ == path@,
            table@ == route_table(),
            first_fit(route_table(), method, path@) == first_fit(
                table@.skip(i as int),
                method,
                path@,
            ),
        decreases table.len() - i,
    {
        let row = &table[i];
        proof {
            let rest = table@.skip(i as int);
            assert(rest[0] == table@[i as int]);
            assert(rest.drop_first() =~= table@.skip(i + 1));
        }
        let method_fits = match row.method {
            Some(m) => m == method,
            None => true,
        };
        let pattern = chars_of(row.path);
        let path_fits = if row.prefix {
            starts_with(&p, &pattern)
        } else {
            same_chars(&p, &pattern)
        };
        if method_fits && path_fits {
            return Some(row.endpoint);
        }
        i += 1;
    }
    None
}

/// Answers a request at its endpoint.
pub fn answer(
    endpoint: Endpoint,
    request: &Request,
    client: &str,
    served: u64,
    unix_millis: u128,
) -> (r: Response)
    ensures
        r@ == endpoint_response(
            endpoint,
            request@,
            client@,
            served as nat,
            unix_millis as nat,
        ),
{
    let unix_secs: u128 = unix_millis / 1000;
    match endpoint {
        Endpoint::Ping => json_response(
            StatusCode::OK,
            "{\"status\": \"ok\", \"message\": \"pong\"}".to_owned(),
        ),
        Endpoint::Info => {
            let mut body = "{\"server\": \"Rust HTTP Server\", \"version\": \"".to_owned();
            body.append(SERVER_VERSION);
            body.append("\", \"requests_served\": ");
            push_decimal(&mut body, served as u128);
            body.append(", \"timestamp\": ");
            push_decimal(&mut body, unix_secs);
            body.append("}");
            json_response(StatusCode::OK, body)
        },
        Endpoint::Users => {
            let mut body = "{\"success\": true, \"data\": ".to_owned();
            body.append(USERS_JSON);
            body.append(", \"message\": \"Users retrieved successfully\"}");
            json_response(StatusCode::OK, body)
        },
        Endpoint::User => {
            let path = chars_of(request.path());
            let k = leading_repeats(&path, &chars_of("/api/users/"));
            let id_text = slice_of(&path, k, path.len());
            assert(id_text@ =~= path@.skip(k as int));
            lookup_user(&id_text)
        },
        Endpoint::Echo => {
            let mut body = "{\"success\": true, \"data\": {\"method\": \"".to_owned();
            body.append(request.method_str());
            body.append("\", \"path\": \"");
            body.append(request.path());
            body.append("\", \"client_ip\": \"");
            body.append(client);
            body.append("\", \"timestamp\": ");
            push_decimal(&mut body, unix_secs);
            body.append("}, \"message\": \"Echo successful\"}");
            json_response(StatusCode::OK, body)
        },
        Endpoint::Search => {
            let data = match request.query_string() {
                Some(qs) => match qs.get("q") {
                    Some(q) => {
                        let shown = to_quoted(q);
                        search_result(shown.as_str())
                    },
                    None => "{\"error\": \"Missing 'q' parameter\"}".to_owned(),
                },
                None => "{\"error\": \"No query parameters provided\"}".to_owned(),
            };
            let mut body = "{\"success\": true, \"data\": ".to_owned();
            body.append(data.as_str());
            body.append(", \"message\": \"Search completed\"}");
            json_response(StatusCode::OK, body)
        },
        Endpoint::Time => {
            let mut body = "{\"success\": true, \"data\": {\"unix_timestamp\": ".to_owned();
            push_decimal(&mut body, unix_secs);
            body.append(", \"milliseconds\": ");
            push_decimal(&mut body, unix_millis);
            body.append("}, \"message\": \"Current server time\"}");
            json_response(StatusCode::OK, body)
        },
        Endpoint::NotFound => json_response(
            StatusCode::NotFound,
            "{\"success\": false, \"data\": null, \"message\": \"API endpoint not found\"}".to_owned(),
        ),
    }
}

/// Routes a request: to the endpoint that the route table gives for it, or
/// nowhere, with `None`, where the table has no row for it.
pub fn route(request: &Request, client: &str, served: u64, unix_millis: u128) -> (r: Option<
    Response,
>)
    ensures
        match r {
            Some(response) => api_response(
                request@,
                client@,
                served as nat,
                unix_millis as nat,
            ) == Some(response@),
            None => api_response(request@, client@, served as nat, unix_millis as nat) is None,
        },
{
    match find_endpoint(request.method(), request.path()) {
        Some(endpoint) => Some(answer(endpoint, request, client, served, unix_millis)),
        None => None,
    }
}

} // verus!
