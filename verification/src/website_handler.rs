//! The request dispatcher: rate limit, path policy, API, static files, in
//! that order.
//!
//! The dispatcher touches no file system. Where a request needs a file it
//! hands back a step that says what to look up, and goes on when it is told
//! what the lookup gave.

use crate::api::{api_answers_its_prefix, api_response, is_api_path, route, API_PREFIX};
use crate::http::request::{Request, RequestView};
use crate::http::response::{Response, ResponseView, RATE_LIMITED_BODY, TEXT_PLAIN};
use crate::http::{Method, StatusCode};
use crate::resolver::{
    after_canonical, after_read, begin_resolution, content_type_for, content_type_of, names,
    resolve, resolve_in, within_sandbox, FileSystem, PendingFile, PendingFileView, PendingPath,
    PendingPathView, Resolution, ResolutionView, ResolvedFileView,
};
use crate::security::{
    admits, extension_allowed, ledger_after, path_verdict, PathError, RateLimiter,
    SecurityConfig, SecurityConfigView, SecurityValidator,
};
use crate::server::{ClientAddr, Handler, Rejection};
use crate::text::{chars_of, same_text, starts_with};
use vstd::prelude::*;

verus! {

/// The body of a "not found" response.
pub const NOT_FOUND_BODY: &'static str = "The requested resource was not found.";

/// The body of a "forbidden" response.
pub const FORBIDDEN_BODY: &'static str = "Access to this resource is forbidden.";

/// The body of a "bad request" response.
pub const BAD_REQUEST_BODY: &'static str = "The request was invalid.";

/// The reason given to a client whose request the path policy turns away.
pub const BLOCKED_REASON: &'static str = "Request blocked for security reasons";

/// The body of the response to a method that is not served.
pub const METHOD_NOT_ALLOWED_BODY: &'static str = "Method not allowed";

/// The body of the response to a request that could not be parsed.
pub const INVALID_REQUEST_BODY: &'static str = "Invalid request format";

/// A plain-text response.
pub open spec fn plain(status_code: StatusCode, body: Option<Seq<char>>) -> ResponseView {
    ResponseView { status_code, body, content_type: TEXT_PLAIN@ }
}

/// The response to a client over its rate limit.
pub open spec fn rate_limited_response() -> ResponseView {
    plain(StatusCode::TooManyRequests, Some(RATE_LIMITED_BODY@))
}

/// The response to a request that the security policy turns away.
pub open spec fn security_violation_response() -> ResponseView {
    plain(StatusCode::BadRequest, Some("Security violation: "@ + BLOCKED_REASON@))
}

/// An error response whose body gives nothing away: for 404, 403 and 400 a
/// fixed sentence stands in place of `message`.
pub open spec fn safe_error_response(status_code: StatusCode, message: Seq<char>) -> ResponseView {
    plain(
        status_code,
        Some(
            match status_code {
                StatusCode::NotFound => NOT_FOUND_BODY@,
                StatusCode::Forbidden => FORBIDDEN_BODY@,
                StatusCode::BadRequest => BAD_REQUEST_BODY@,
                _ => message,
            },
        ),
    )
}

/// A lookup of static files that waits for the canonical form of a path.
pub struct PathLookup {
    head: bool,
    current: PendingPath,
    rest: Vec<PendingPath>,
}

/// A lookup of static files that waits for the content of a file.
pub struct FileLookup {
    head: bool,
    current: PendingFile,
    rest: Vec<PendingPath>,
}

pub ghost struct PathLookupView {
    /// The request was a `HEAD`: the response has no body.
    pub head: bool,
    /// The path that is being looked up.
    pub current: PendingPathView,
    /// The paths to try, in order, if this one is not found.
    pub rest: Seq<PendingPathView>,
}

pub ghost struct FileLookupView {
    pub head: bool,
    /// The file that is being read.
    pub current: PendingFileView,
    pub rest: Seq<PendingPathView>,
}

/// The views of a list of pending paths.
pub open spec fn pending_views(list: Seq<PendingPath>) -> Seq<PendingPathView> {
    Seq::new(list.len(), |i: int| list[i]@)
}

impl View for PathLookup {
    type V = PathLookupView;

    closed spec fn view(&self) -> PathLookupView {
        PathLookupView {
            head: self.head,
            current: self.current@,
            rest: pending_views(self.rest@),
        }
    }
}

impl View for FileLookup {
    type V = FileLookupView;

    closed spec fn view(&self) -> FileLookupView {
        FileLookupView {
            head: self.head,
            current: self.current@,
            rest: pending_views(self.rest@),
        }
    }
}

/// What the dispatcher wants done next.
pub enum Step {
    /// Send this response; the exchange is over.
    Respond(Response),
    /// Join the lookup's relative path onto the sandbox root, canonicalize
    /// the result, and report it with `PathLookup::on_canonical`.
    Canonicalize(PathLookup),
    /// Read the regular file at the lookup's canonical path and report it
    /// with `FileLookup::on_read`.
    Read(FileLookup),
}

pub ghost enum StepView {
    Respond(ResponseView),
    Canonicalize(PathLookupView),
    Read(FileLookupView),
}

impl View for Step {
    type V = StepView;

    open spec fn view(&self) -> StepView {
        match self {
            Step::Respond(r) => StepView::Respond(r@),
            Step::Canonicalize(l) => StepView::Canonicalize(l@),
            Step::Read(l) => StepView::Read(l@),
        }
    }
}

/// The response that serves a file: 200 under the file's own content type,
/// for `GET` with the content and for `HEAD` without a body.
pub open spec fn found_response(head: bool, file: ResolvedFileView) -> ResponseView {
    ResponseView {
        status_code: StatusCode::OK,
        body: if head {
            None
        } else {
            Some(file.content)
        },
        content_type: file.content_type,
    }
}

/// The response where no file was found: 404, for `GET` with the fixed
/// sentence, for `HEAD` without a body.
pub open spec fn not_found_response(head: bool) -> ResponseView {
    if head {
        plain(StatusCode::NotFound, None)
    } else {
        safe_error_response(StatusCode::NotFound, Seq::empty())
    }
}

/// The step that tries the first path of `queue`, or gives up where the
/// queue is empty.
pub open spec fn next_step(head: bool, queue: Seq<PendingPathView>) -> StepView {
    if queue.len() == 0 {
        StepView::Respond(not_found_response(head))
    } else {
        StepView::Canonicalize(
            PathLookupView { head, current: queue[0], rest: queue.drop_first() },
        )
    }
}

/// The step after canonicalization: read the file if its path lies inside
/// the sandbox, else go on to the next path.
pub open spec fn step_after_canonical(
    lookup: PathLookupView,
    canonical: Option<Seq<Seq<char>>>,
) -> StepView {
    match after_canonical(lookup.current, canonical) {
        ResolutionView::Read(file) => StepView::Read(
            FileLookupView { head: lookup.head, current: file, rest: lookup.rest },
        ),
        _ => next_step(lookup.head, lookup.rest),
    }
}

/// The step after the read: serve the file if there is one, else go on to
/// the next path.
pub open spec fn step_after_read(lookup: FileLookupView, content: Option<Seq<char>>) -> StepView {
    match after_read(lookup.current, content) {
        ResolutionView::Found(file) => StepView::Respond(found_response(lookup.head, file)),
        _ => next_step(lookup.head, lookup.rest),
    }
}

/// The file paths that a request path stands for, in the order in which
/// they are tried.
pub open spec fn candidate_paths(path: Seq<char>) -> Seq<Seq<char>> {
    if path == "/"@ {
        seq!["index.html"@, "hello.html"@]
    } else if path == "/hello"@ {
        seq!["hello.html"@]
    } else {
        seq![path]
    }
}

/// The lookups that `paths` give rise to: one for each path that the
/// resolver takes up, in order.
pub open spec fn lookups(
    config: SecurityConfigView,
    root: Seq<Seq<char>>,
    paths: Seq<Seq<char>>,
) -> Seq<PendingPathView>
    decreases paths.len(),
{
    if paths.len() == 0 {
        Seq::empty()
    } else {
        let rest = lookups(config, root, paths.drop_last());
        match begin_resolution(config, root, paths.last()) {
            ResolutionView::Canonicalize(p) => rest.push(p),
            _ => rest,
        }
    }
}

/// The first step of serving a request that is none of the API's: files for
/// `GET` and `HEAD`, an empty 200 for `OPTIONS`, 405 for any other method.
pub open spec fn static_step(
    config: SecurityConfigView,
    root: Seq<Seq<char>>,
    method: Method,
    path: Seq<char>,
) -> StepView {
    let queue = lookups(config, root, candidate_paths(path));
    match method {
        Method::GET => next_step(false, queue),
        Method::HEAD => next_step(true, queue),
        Method::OPTIONS => StepView::Respond(plain(StatusCode::OK, None)),
        _ => StepView::Respond(plain(StatusCode::MethodNotAllowed, Some(METHOD_NOT_ALLOWED_BODY@))),
    }
}

/// The first step for a request that the rate limiter let through. A path
/// that fails the policy is answered at once; then the API has its say;
/// what is left goes to the static files. `served` counts the requests that
/// got as far as the router, this one included.
pub open spec fn dispatch(
    config: SecurityConfigView,
    root: Seq<Seq<char>>,
    request: RequestView,
    client: Seq<char>,
    served: nat,
    unix_millis: nat,
) -> StepView {
    match path_verdict(config.max_path_length, request.path) {
        Err(_) => StepView::Respond(security_violation_response()),
        Ok(_) => match api_response(request, client, served, unix_millis) {
            Some(response) => StepView::Respond(response),
            None => static_step(config, root, request.method, request.path),
        },
    }
}

/// One of `paths` passes the path policy and has an extension that is not
/// on the allow-list.
pub open spec fn has_blocked_extension(config: SecurityConfigView, paths: Seq<Seq<char>>) -> bool {
    exists|i: int|
        0 <= i < paths.len() && path_verdict(config.max_path_length, #[trigger] paths[i]) is Ok
            && !extension_allowed(config.allowed_file_extensions, paths[i])
}

/// Why a request that the rate limiter lets through is turned away, or a
/// file that it stands for is left unserved; `None` where neither is so.
/// The path policy comes first; the API turns nothing away; of the rest a
/// `GET` or a `HEAD` may stand for a file with a blocked extension, and a
/// method other than these and `OPTIONS` is not served.
pub open spec fn dispatch_rejection(config: SecurityConfigView, request: RequestView) -> Option<
    Rejection,
> {
    match path_verdict(config.max_path_length, request.path) {
        Err(e) => Some(Rejection::Path(e)),
        Ok(_) => if is_api_path(request.path) {
            None
        } else {
            match request.method {
                Method::GET | Method::HEAD => if has_blocked_extension(
                    config,
                    candidate_paths(request.path),
                ) {
                    Some(Rejection::BlockedExtension)
                } else {
                    None
                },
                Method::OPTIONS => None,
                _ => Some(Rejection::MethodNotAllowed),
            }
        },
    }
}

/// Why a canonical path is not read: it lies outside the sandbox.
pub open spec fn lookup_rejection(
    lookup: PathLookupView,
    canonical: Option<Seq<Seq<char>>>,
) -> Option<Rejection> {
    match canonical {
        Some(c) => if within_sandbox(lookup.current.root, c) {
            None
        } else {
            Some(Rejection::OutsideSandbox)
        },
        None => None,
    }
}

/// The count of requests after one more; it wraps at the end of `u64`.
pub open spec fn one_more(count: u64) -> u64 {
    if count == u64::MAX {
        0
    } else {
        (count + 1) as u64
    }
}

/// The step that tries the first of `queue`.
fn begin_lookups(head: bool, queue: Vec<PendingPath>) -> (step: Step)
    ensures
        step@ == next_step(head, pending_views(queue@)),
{
    let mut queue = queue;
    if queue.len() == 0 {
        if head {
            Step::Respond(Response::new(StatusCode::NotFound, None))
        } else {
            Step::Respond(Response::new(StatusCode::NotFound, Some(NOT_FOUND_BODY.to_owned())))
        }
    } else {
        let ghost all = pending_views(queue@);
        let current = queue.remove(0);
        assert(pending_views(queue@) =~= all.drop_first());
        Step::Canonicalize(PathLookup { head, current, rest: queue })
    }
}

impl PathLookup {
    /// The path to join onto the sandbox root.
    pub fn relative(&self) -> (r: &str)
        ensures
            r@ == self@.current.relative,
    {
        self.current.relative()
    }

    /// Says why `on_canonical`, called next with this canonical path, would
    /// not have the file read: the path lies outside the sandbox. `None`
    /// where the file would be read, and where canonicalization failed.
    pub fn rejection(&self, canonical: Option<&Vec<String>>) -> (r: Option<Rejection>)
        ensures
            r == lookup_rejection(
                self@,
                match canonical {
                    Some(c) => Some(names(c@)),
                    None => None,
                },
            ),
    {
        match canonical {
            Some(c) => {
                if self.current.admits(c) {
                    None
                } else {
                    Some(Rejection::OutsideSandbox)
                }
            },
            None => None,
        }
    }

    /// Goes on with the components of the canonical path, or with `None`
    /// where canonicalization failed.
    pub fn on_canonical(self, canonical: Option<Vec<String>>) -> (step: Step)
        ensures
            step@ == step_after_canonical(
                self@,
                match canonical {
                    Some(c) => Some(names(c@)),
                    None => None,
                },
            ),
    {
        match self.current.on_canonical(canonical) {
            Resolution::Read(file) => Step::Read(
                FileLookup { head: self.head, current: file, rest: self.rest },
            ),
            _ => begin_lookups(self.head, self.rest),
        }
    }
}

impl FileLookup {
    /// The components of the canonical path to read.
    pub fn canonical(&self) -> (r: &Vec<String>)
        ensures
            names(r@) == self@.current.canonical,
    {
        self.current.canonical()
    }

    /// Goes on with the content of the file, or with `None` where the path
    /// names no regular file or the file could not be read.
    pub fn on_read(self, content: Option<String>) -> (step: Step)
        ensures
            step@ == step_after_read(
                self@,
                match content {
                    Some(t) => Some(t@),
                    None => None,
                },
            ),
    {
        match self.current.on_read(content) {
            Resolution::Found(file) => {
                let body = if self.head {
                    None
                } else {
                    Some(file.content)
                };
                Step::Respond(Response::with_content_type(StatusCode::OK, body, file.content_type))
            },
            _ => begin_lookups(self.head, self.rest),
        }
    }
}

/// The request handler of the site: the sandbox root, the policy, the rate
/// ledger and the count of requests served.
pub struct WebsiteHandler {
    public_path: Vec<String>,
    rate_limiter: RateLimiter,
    security_validator: SecurityValidator,
    request_count: u64,
}

impl WebsiteHandler {
    /// The components of the canonical sandbox root.
    pub closed spec fn root(&self) -> Seq<Seq<char>> {
        names(self.public_path@)
    }

    /// The configuration of the policy.
    pub closed spec fn config(&self) -> SecurityConfigView {
        self.security_validator.config()
    }

    /// The limit of requests per window.
    pub closed spec fn limit(&self) -> nat {
        self.rate_limiter.limit()
    }

    /// The length of the rate-limit window.
    pub closed spec fn window(&self) -> u64 {
        self.rate_limiter.window()
    }

    /// The rate ledger.
    pub closed spec fn ledger(&self) -> Map<u128, Seq<u64>> {
        self.rate_limiter.ledger()
    }

    /// The number of requests that got as far as the router.
    pub closed spec fn served(&self) -> u64 {
        self.request_count
    }

    /// A handler for the sandbox whose canonical root has the components
    /// `public_path`, with an empty ledger and nothing served.
    pub fn new(public_path: Vec<String>, security_config: SecurityConfig) -> (r: Self)
        ensures
            r.root() == names(public_path@),
            r.config() == security_config@,
            r.limit() == security_config@.rate_limit_requests,
            r.window() == security_config.rate_limit_window,
            r.ledger() == Map::<u128, Seq<u64>>::empty(),
            r.served() == 0,
    {
        let rate_limiter = RateLimiter::new(security_config.clone());
        let security_validator = SecurityValidator::new(security_config);
        Self { public_path, rate_limiter, security_validator, request_count: 0 }
    }

    /// The number of requests that got as far as the router.
    pub fn requests_served(&self) -> (n: u64)
        ensures
            n == self.served(),
    {
        self.request_count
    }

    /// The rate limiter, to read its ledger.
    pub fn rate_limiter(&self) -> (r: &RateLimiter)
        ensures
            r.ledger() == self.ledger(),
            r.limit() == self.limit(),
            r.window() == self.window(),
    {
        &self.rate_limiter
    }

    /// Counts the request and routes it to the API. `None` where the path
    /// does not lie under the API prefix.
    pub fn handle_api_route(&mut self, request: &Request, client: &str, unix_millis: u128) -> (r:
        Option<Response>)
        ensures
            final(self).root() == old(self).root(),
            final(self).config() == old(self).config(),
            final(self).limit() == old(self).limit(),
            final(self).window() == old(self).window(),
            final(self).ledger() == old(self).ledger(),
            final(self).served() == one_more(old(self).served()),
            match r {
                Some(response) => api_response(
                    request@,
                    client@,
                    final(self).served() as nat,
                    unix_millis as nat,
                ) == Some(response@),
                None => api_response(
                    request@,
                    client@,
                    final(self).served() as nat,
                    unix_millis as nat,
                ) is None,
            },
    {
        self.request_count = self.request_count.wrapping_add(1);
        route(request, client, self.request_count, unix_millis)
    }

    /// The content type that goes with a file path.
    pub fn get_content_type(&self, file_path: &str) -> (r: String)
        ensures
            r@ == content_type_of(file_path@),
    {
        content_type_for(file_path)
    }

    /// Begins the resolution of a file path inside the sandbox.
    pub fn read_file(&self, file_path: &str) -> (r: Resolution)
        ensures
            r@ == begin_resolution(self.config(), self.root(), file_path@),
    {
        resolve(&self.security_validator, &self.public_path, file_path)
    }

    /// An error response whose body gives nothing away.
    pub fn create_safe_error_response(&self, status: StatusCode, message: &str) -> (r: Response)
        ensures
            r@ == safe_error_response(status, message@),
    {
        let safe_message = match status {
            StatusCode::NotFound => NOT_FOUND_BODY.to_owned(),
            StatusCode::Forbidden => FORBIDDEN_BODY.to_owned(),
            StatusCode::BadRequest => BAD_REQUEST_BODY.to_owned(),
            _ => message.to_owned(),
        };
        Response::new(status, Some(safe_message))
    }

    /// Whether one of the file paths that `path` stands for passes the path
    /// policy and has an extension that is not on the allow-list.
    fn blocks_extension(&self, path: &str) -> (r: bool)
        ensures
            r == has_blocked_extension(self.config(), candidate_paths(path@)),
    {
        let paths = candidates_for(path);
        let ghost wanted = candidate_paths(path@);
        let mut i: usize = 0;
        while i < paths.len()
            invariant
                i <= paths.len(),
                wanted == candidate_paths(path@),
                paths@.len() == wanted.len(),
                forall|k: int| 0 <= k < paths.len() ==> paths@[k]@ == wanted[k],
                forall|k: int|
                    0 <= k < i ==> !(path_verdict(
                        self.config().max_path_length,
                        #[trigger] wanted[k],
                    ) is Ok && !extension_allowed(
                        self.config().allowed_file_extensions,
                        wanted[k],
                    )),
            decreases paths.len() - i,
        {
            if self.security_validator.validate_path(paths[i]).is_ok()
                && !self.security_validator.validate_file_extension(paths[i]) {
                assert(path_verdict(self.config().max_path_length, wanted[i as int]) is Ok);
                return true;
            }
            i += 1;
        }
        false
    }

    /// The lookups for the file paths that `path` stands for.
    fn queue_for(&self, path: &str) -> (queue: Vec<PendingPath>)
        ensures
            pending_views(queue@) == lookups(self.config(), self.root(), candidate_paths(path@)),
    {
        let paths = candidates_for(path);
        let ghost wanted = candidate_paths(path@);
        let mut queue: Vec<PendingPath> = Vec::new();
        let mut i: usize = 0;
        assert(wanted.take(0) =~= Seq::<Seq<char>>::empty());
        while i < paths.len()
            invariant
                i <= paths.len(),
                paths@.len() == wanted.len(),
                forall|k: int| 0 <= k < paths.len() ==> paths@[k]@ == wanted[k],
                pending_views(queue@) == lookups(self.config(), self.root(), wanted.take(i as int)),
            decreases paths.len() - i,
        {
            let ghost before = pending_views(queue@);
            proof {
                assert(wanted.take(i + 1).drop_last() =~= wanted.take(i as int));
                assert(wanted.take(i + 1).last() == wanted[i as int]);
            }
            match self.read_file(paths[i]) {
                Resolution::Canonicalize(p) => {
                    queue.push(p);
                    assert(pending_views(queue@) =~= before.push(p@));
                },
                _ => {},
            }
            i += 1;
        }
        assert(wanted.take(wanted.len() as int) =~= wanted);
        queue
    }
}

/// The file paths that a request path stands for, in the order in which they
/// are tried.
fn candidates_for<'a>(path: &'a str) -> (paths: Vec<&'a str>)
    ensures
        paths@.len() == candidate_paths(path@).len(),
        forall|k: int| 0 <= k < paths.len() ==> paths@[k]@ == candidate_paths(path@)[k],
{
    let mut paths: Vec<&'a str> = Vec::new();
    if same_text(path, "/") {
        paths.push("index.html");
        paths.push("hello.html");
    } else if same_text(path, "/hello") {
        paths.push("hello.html");
    } else {
        paths.push(path);
    }
    paths
}

impl Handler for WebsiteHandler {
    /// The ledger is brought up to date for the client, whatever comes of
    /// the request. A client over its limit gets the rate-limit response,
    /// and nothing else changes. Any other request is dispatched; it counts
    /// as served if its path passes the policy.
    open spec fn handles(
        before: Self,
        after: Self,
        request: RequestView,
        ip: u128,
        client: Seq<char>,
        now: u64,
        unix_millis: u128,
        step: StepView,
    ) -> bool {
        &&& after.root() == before.root()
        &&& after.config() == before.config()
        &&& after.limit() == before.limit()
        &&& after.window() == before.window()
        &&& after.ledger() == ledger_after(
            before.ledger(),
            before.limit(),
            before.window(),
            ip,
            now,
        )
        &&& if admits(before.ledger(), before.limit(), before.window(), ip, now) {
            &&& after.served() == if path_verdict(
                before.config().max_path_length,
                request.path,
            ) is Ok {
                one_more(before.served())
            } else {
                before.served()
            }
            &&& step == dispatch(
                before.config(),
                before.root(),
                request,
                client,
                after.served() as nat,
                unix_millis as nat,
            )
        } else {
            &&& after.served() == before.served()
            &&& step == StepView::Respond(rate_limited_response())
        }
    }

    /// A client over its limit is turned away for that; any other request
    /// for what `dispatch_rejection` says.
    open spec fn rejection_of(self, request: RequestView, ip: u128, now: u64) -> Option<
        Rejection,
    > {
        if admits(self.ledger(), self.limit(), self.window(), ip, now) {
            dispatch_rejection(self.config(), request)
        } else {
            Some(Rejection::RateLimited)
        }
    }

    /// Says why `handle_request` would turn the request away, in the order
    /// of its checks. Nothing is recorded and nothing is counted.
    fn rejection(&self, request: &Request, client_ip: &ClientAddr, now: u64) -> (r: Option<
        Rejection,
    >) {
        if !self.rate_limiter.would_allow(client_ip.ip, now) {
            return Some(Rejection::RateLimited);
        }
        let path = request.path();
        match self.security_validator.validate_path(path) {
            Err(e) => {
                return Some(Rejection::Path(e));
            },
            Ok(_) => {},
        }
        if starts_with(&chars_of(path), &chars_of(API_PREFIX)) {
            return None;
        }
        match request.method() {
            Method::GET | Method::HEAD => {
                if self.blocks_extension(path) {
                    Some(Rejection::BlockedExtension)
                } else {
                    None
                }
            },
            Method::OPTIONS => None,
            _ => Some(Rejection::MethodNotAllowed),
        }
    }

    /// Takes a request through the pipeline as far as it goes without the
    /// file system: the rate limit, the path policy, the API, and the first
    /// step of a file lookup.
    fn handle_request(
        &mut self,
        request: &Request,
        client_ip: &ClientAddr,
        now: u64,
        unix_millis: u128,
    ) -> (step: Step) {
        if !self.rate_limiter.is_allowed(client_ip.ip, now) {
            return Step::Respond(Response::rate_limited());
        }
        match self.security_validator.validate_path(request.path()) {
            Err(reason) => {
                return Step::Respond(self.handle_security_violation(reason.message(), client_ip));
            },
            Ok(_) => {},
        }
        match self.handle_api_route(request, client_ip.text.as_str(), unix_millis) {
            Some(api_response) => {
                return Step::Respond(api_response);
            },
            None => {},
        }
        let path = request.path();
        match request.method() {
            Method::GET => begin_lookups(false, self.queue_for(path)),
            Method::HEAD => begin_lookups(true, self.queue_for(path)),
            Method::OPTIONS => Step::Respond(Response::new(StatusCode::OK, None)),
            _ => Step::Respond(
                Response::new(
                    StatusCode::MethodNotAllowed,
                    Some(METHOD_NOT_ALLOWED_BODY.to_owned()),
                ),
            ),
        }
    }
}

/// How many lookups a step may still ask for.
pub open spec fn lookups_left(step: StepView) -> nat {
    match step {
        StepView::Respond(_) => 0,
        StepView::Canonicalize(lookup) => 2 * lookup.rest.len() + 2,
        StepView::Read(lookup) => 2 * lookup.rest.len() + 1,
    }
}

/// The response that a step ends with when each lookup is answered from
/// `fs`.
pub open spec fn response_in(fs: FileSystem, step: StepView) -> ResponseView
    decreases lookups_left(step),
{
    match step {
        StepView::Respond(response) => response,
        StepView::Canonicalize(lookup) => response_in(
            fs,
            step_after_canonical(lookup, fs.canonicalize(lookup.current.relative)),
        ),
        StepView::Read(lookup) => response_in(
            fs,
            step_after_read(lookup, fs.read(lookup.current.canonical)),
        ),
    }
}

/// A request for static content is answered alike each time: the response
/// to a request outside the API, once the rate limiter has let it through,
/// depends on the configuration, the request and the file system alone,
/// not on the client, the clock or what was served before.
pub proof fn static_response_is_repeatable(
    fs: FileSystem,
    config: SecurityConfigView,
    root: Seq<Seq<char>>,
    request: RequestView,
    client: Seq<char>,
    served: nat,
    unix_millis: nat,
    later_client: Seq<char>,
    later_served: nat,
    later_unix_millis: nat,
)
    requires
        !is_api_path(request.path),
    ensures
        response_in(fs, dispatch(config, root, request, client, served, unix_millis))
            == response_in(
            fs,
            dispatch(config, root, request, later_client, later_served, later_unix_millis),
        ),
{
    api_answers_its_prefix(request, client, served, unix_millis);
    api_answers_its_prefix(request, later_client, later_served, later_unix_millis);
}

/// A request whose path fails the policy is turned away before the API and
/// the file system are asked anything: the response is the same 400
/// whatever the method, the client and the file system.
pub proof fn rejected_path_is_turned_away(
    fs: FileSystem,
    config: SecurityConfigView,
    root: Seq<Seq<char>>,
    request: RequestView,
    client: Seq<char>,
    served: nat,
    unix_millis: nat,
)
    requires
        path_verdict(config.max_path_length, request.path) is Err,
    ensures
        dispatch(config, root, request, client, served, unix_millis) == StepView::Respond(
            security_violation_response(),
        ),
        response_in(fs, dispatch(config, root, request, client, served, unix_millis))
            == security_violation_response(),
{
}

/// What the first of `paths` that resolves on `fs` gives; `None` where none
/// of them resolves.
pub open spec fn first_resolved(
    fs: FileSystem,
    config: SecurityConfigView,
    root: Seq<Seq<char>>,
    paths: Seq<Seq<char>>,
) -> Option<ResolvedFileView>
    decreases paths.len(),
{
    if paths.len() == 0 {
        None
    } else {
        match resolve_in(fs, config, root, paths[0]) {
            Some(file) => Some(file),
            None => first_resolved(fs, config, root, paths.drop_first()),
        }
    }
}

/// The lookups of a list of paths begin with those of its first path.
proof fn lemma_lookups_unfold(
    config: SecurityConfigView,
    root: Seq<Seq<char>>,
    paths: Seq<Seq<char>>,
)
    requires
        paths.len() > 0,
    ensures
        lookups(config, root, paths) == match begin_resolution(config, root, paths[0]) {
            ResolutionView::Canonicalize(p) => seq![p] + lookups(
                config,
                root,
                paths.drop_first(),
            ),
            _ => lookups(config, root, paths.drop_first()),
        },
    decreases paths.len(),
{
    if paths.len() == 1 {
        assert(paths.drop_last() =~= Seq::<Seq<char>>::empty());
        assert(paths.drop_first() =~= Seq::<Seq<char>>::empty());
        assert(paths.last() == paths[0]);
        match begin_resolution(config, root, paths[0]) {
            ResolutionView::Canonicalize(p) => {
                assert(Seq::<PendingPathView>::empty().push(p) =~= seq![p]
                    + Seq::<PendingPathView>::empty());
            },
            _ => {},
        }
    } else {
        let front = paths.drop_last();
        lemma_lookups_unfold(config, root, front);
        assert(front[0] == paths[0]);
        assert(front.drop_first() =~= paths.drop_first().drop_last());
        assert(paths.drop_first().last() == paths.last());
        let inner = lookups(config, root, paths.drop_first().drop_last());
        match begin_resolution(config, root, paths[0]) {
            ResolutionView::Canonicalize(p) => {
                match begin_resolution(config, root, paths.last()) {
                    ResolutionView::Canonicalize(q) => {
                        assert((seq![p] + inner).push(q) =~= seq![p] + inner.push(q));
                    },
                    _ => {},
                }
            },
            _ => {},
        }
    }
}

/// Working through a queue of lookups gives what the first path that
/// resolves gives.
proof fn lemma_queue_follows_the_resolver(
    fs: FileSystem,
    config: SecurityConfigView,
    root: Seq<Seq<char>>,
    head: bool,
    paths: Seq<Seq<char>>,
)
    ensures
        response_in(fs, next_step(head, lookups(config, root, paths)))
            == match first_resolved(fs, config, root, paths) {
            Some(file) => found_response(head, file),
            None => not_found_response(head),
        },
    decreases paths.len(),
{
    if paths.len() > 0 {
        lemma_lookups_unfold(config, root, paths);
        lemma_queue_follows_the_resolver(fs, config, root, head, paths.drop_first());
        let rest = lookups(config, root, paths.drop_first());
        match begin_resolution(config, root, paths[0]) {
            ResolutionView::Canonicalize(p) => {
                let queue = seq![p] + rest;
                assert(queue[0] == p);
                assert(queue.drop_first() =~= rest);
                let lookup = PathLookupView { head, current: p, rest };
                assert(next_step(head, queue) == StepView::Canonicalize(lookup));
                let after = step_after_canonical(lookup, fs.canonicalize(p.relative));
                assert(response_in(fs, StepView::Canonicalize(lookup)) == response_in(fs, after));
                match after {
                    StepView::Read(file_lookup) => {
                        let last = step_after_read(
                            file_lookup,
                            fs.read(file_lookup.current.canonical),
                        );
                        assert(response_in(fs, after) == response_in(fs, last));
                        match last {
                            StepView::Respond(r) => {
                                assert(response_in(fs, last) == r);
                            },
                            _ => {},
                        }
                    },
                    _ => {},
                }
            },
            _ => {},
        }
    }
}

/// Static routing follows the resolver. A `GET` or a `HEAD` outside the
/// API whose path passes the policy is answered from the first of its
/// candidate files that the resolver finds: `index.html`, then
/// `hello.html`, for `/`; `hello.html` for `/hello`; the path itself for any
/// other. Where the resolver finds none the answer is 404.
pub proof fn static_routing_follows_the_resolver(
    fs: FileSystem,
    config: SecurityConfigView,
    root: Seq<Seq<char>>,
    request: RequestView,
    client: Seq<char>,
    served: nat,
    unix_millis: nat,
)
    requires
        request.method == Method::GET || request.method == Method::HEAD,
        !is_api_path(request.path),
        path_verdict(config.max_path_length, request.path) is Ok,
    ensures
        response_in(fs, dispatch(config, root, request, client, served, unix_millis))
            == match first_resolved(fs, config, root, candidate_paths(request.path)) {
            Some(file) => found_response(request.method == Method::HEAD, file),
            None => not_found_response(request.method == Method::HEAD),
        },
{
    api_answers_its_prefix(request, client, served, unix_millis);
    lemma_queue_follows_the_resolver(
        fs,
        config,
        root,
        request.method == Method::HEAD,
        candidate_paths(request.path),
    );
}

/// `HEAD` mirrors `GET` but for the body. For a path outside the API that
/// passes the policy, the response to a `HEAD` has the status and the
/// content type of the response to a `GET` of that path, and no body.
pub proof fn head_mirrors_get(
    fs: FileSystem,
    config: SecurityConfigView,
    root: Seq<Seq<char>>,
    get: RequestView,
    head: RequestView,
    client: Seq<char>,
    served: nat,
    unix_millis: nat,
    later_client: Seq<char>,
    later_served: nat,
    later_unix_millis: nat,
)
    requires
        get.method == Method::GET,
        head.method == Method::HEAD,
        head.path == get.path,
        !is_api_path(get.path),
        path_verdict(config.max_path_length, get.path) is Ok,
    ensures
        ({
            let g = response_in(fs, dispatch(config, root, get, client, served, unix_millis));
            let h = response_in(
                fs,
                dispatch(config, root, head, later_client, later_served, later_unix_millis),
            );
            &&& h.status_code == g.status_code
            &&& h.content_type == g.content_type
            &&& h.body is None
        }),
{
    static_routing_follows_the_resolver(fs, config, root, get, client, served, unix_millis);
    static_routing_follows_the_resolver(
        fs,
        config,
        root,
        head,
        later_client,
        later_served,
        later_unix_millis,
    );
}

/// The reason given goes with the response. Where the handler names the
/// rate limit, the path policy or the method as the reason, the request is
/// answered with the response for that; where it names the rate limit or
/// the path policy, or no reason at all, that is exactly when the rate
/// limiter or the policy turned the request away, or neither did; and where
/// it names a blocked extension, the request is for static files and
/// passed both.
pub proof fn rejection_goes_with_the_response(
    before: WebsiteHandler,
    after: WebsiteHandler,
    request: RequestView,
    ip: u128,
    client: Seq<char>,
    now: u64,
    unix_millis: u128,
    step: StepView,
)
    requires
        WebsiteHandler::handles(before, after, request, ip, client, now, unix_millis, step),
    ensures
        ({
            let reason = before.rejection_of(request, ip, now);
            let allowed = admits(before.ledger(), before.limit(), before.window(), ip, now);
            let verdict = path_verdict(before.config().max_path_length, request.path);
            &&& reason == Some(Rejection::RateLimited) <==> !allowed
            &&& reason == Some(Rejection::RateLimited) ==> step == StepView::Respond(
                rate_limited_response(),
            )
            &&& reason matches Some(Rejection::Path(e)) ==> allowed && verdict == Err::<
                (),
                PathError,
            >(e) && step == StepView::Respond(security_violation_response())
            &&& reason == Some(Rejection::MethodNotAllowed) ==> step == StepView::Respond(
                plain(StatusCode::MethodNotAllowed, Some(METHOD_NOT_ALLOWED_BODY@)),
            )
            &&& reason == Some(Rejection::BlockedExtension) ==> allowed && verdict is Ok
                && !is_api_path(request.path) && (request.method == Method::GET || request.method
                == Method::HEAD)
            &&& reason is None ==> allowed && verdict is Ok
        }),
{
    api_answers_its_prefix(request, client, after.served() as nat, unix_millis as nat);
}

} // verus!
