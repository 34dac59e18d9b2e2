//! The connection acceptor, without its sockets: what to do with what a
//! connection's one read brought.

use crate::http::request::{parsed, ParseError, Request, RequestView};
use crate::http::response::{Response, ResponseView};
use crate::http::StatusCode;
use crate::security::PathError;
use crate::website_handler::{
    plain, rate_limited_response, security_violation_response, Step, StepView, BLOCKED_REASON,
    INVALID_REQUEST_BODY,
};
use vstd::prelude::*;

verus! {

/// The most bytes that are read of a request.
pub const READ_BUFFER_SIZE: usize = 8192;

/// The seconds that a connection is given to send its request.
pub const READ_TIMEOUT_SECS: u64 = 10;

/// The body of the response to a connection that sent nothing in time.
pub const TIMEOUT_BODY: &'static str = "Request timeout";

/// The remote address of a connection, as far as the pipeline reads it.
pub struct ClientAddr {
    /// The IP address as a number, an IPv4 address in its IPv6-mapped form.
    /// The port is no part of it. This is the identity that the rate
    /// limiter counts by.
    pub ip: u128,
    /// The IP address as text, as it is echoed to the client.
    pub text: String,
}

/// The response to a request that could not be parsed.
pub open spec fn bad_request_response() -> ResponseView {
    plain(StatusCode::BadRequest, Some(INVALID_REQUEST_BODY@))
}

/// The response to a connection that sent nothing in time.
pub open spec fn timeout_response() -> ResponseView {
    plain(StatusCode::RequestTimeout, Some(TIMEOUT_BODY@))
}

/// Why a request was turned away or a file was not served. This is for the
/// server's own log: nothing of it goes to the client.
#[derive(Copy, Clone, Debug, PartialEq, Eq)]
pub enum Rejection {
    /// The bytes hold no request.
    Unparsable(ParseError),
    /// The handler could not be locked.
    Unavailable,
    /// The client is over its rate limit.
    RateLimited,
    /// The request path fails the path policy.
    Path(PathError),
    /// The method is not served.
    MethodNotAllowed,
    /// A file that the request stands for has an extension that is not on
    /// the allow-list.
    BlockedExtension,
    /// The canonical path of a file lies outside the sandbox.
    OutsideSandbox,
}

/// What answers the requests of a server.
pub trait Handler: Send + Sync + Sized + 'static {
    /// What `handle_request` promises: how the step that it returns and the
    /// handler that it leaves go with the handler that it found, the
    /// request, the client's address and the two clocks. A handler that
    /// says nothing here promises nothing.
    open spec fn handles(
        before: Self,
        after: Self,
        request: RequestView,
        ip: u128,
        client: Seq<char>,
        now: u64,
        unix_millis: u128,
        step: StepView,
    ) -> bool {
        true
    }

    /// Takes a request as far as it goes without the file system. `now` is
    /// the time of a monotonic clock in nanoseconds, `unix_millis` the
    /// wall-clock time in milliseconds since the Unix epoch.
    fn handle_request(
        &mut self,
        request: &Request,
        client_ip: &ClientAddr,
        now: u64,
        unix_millis: u128,
    ) -> (step: Step)
        ensures
            Self::handles(
                *old(self),
                *final(self),
                request@,
                client_ip.ip,
                client_ip.text@,
                now,
                unix_millis,
                step@,
            ),
    ;

    /// Why `handle_request` would turn the request away, or leave a file
    /// that it stands for unserved; `None` where it would do neither. A
    /// handler that says nothing here gives no reasons.
    open spec fn rejection_of(self, request: RequestView, ip: u128, now: u64) -> Option<
        Rejection,
    > {
        None
    }

    /// Says why `handle_request`, called next with the same arguments,
    /// would turn the request away. The handler is left as it is. A handler
    /// that gives no reasons returns `None`.
    fn rejection(&self, request: &Request, client_ip: &ClientAddr, now: u64) -> (r: Option<
        Rejection,
    >)
        ensures
            r == self.rejection_of(request@, client_ip.ip, now),
    ;

    /// The response to a request that could not be parsed: 400 with a fixed
    /// body, whatever the error.
    fn handle_bad_request(&self, e: &ParseError) -> (r: Response)
        ensures
            r@ == bad_request_response(),
    {
        Response::new(StatusCode::BadRequest, Some(INVALID_REQUEST_BODY.to_owned()))
    }

    /// The response to a request that the security policy turns away. The
    /// reason stays with the server; the client is told the same thing
    /// whatever it was.
    fn handle_security_violation(&self, reason: &str, client_ip: &ClientAddr) -> (r: Response)
        ensures
            r@ == security_violation_response(),
    {
        Response::security_error(BLOCKED_REASON)
    }
}

/// What a connection's one read brought.
pub enum ReadOutcome {
    /// The bytes that were read; none where the peer closed the connection.
    Data(Vec<u8>),
    /// The read failed.
    Failed,
    /// Nothing came within the time allowed.
    TimedOut,
}

/// What becomes of a connection, and why.
pub struct Reaction {
    /// What is to be done next; `None` where the connection is dropped
    /// without a response.
    pub step: Option<Step>,
    /// Why the request was turned away, where it was.
    pub rejection: Option<Rejection>,
}

/// The server: the address it listens on.
pub struct Server {
    addr: String,
}

impl Server {
    /// The address, as `host:port`.
    pub closed spec fn address(&self) -> Seq<char> {
        self.addr@
    }

    pub fn new(addr: String) -> (r: Self)
        ensures
            r.address() == addr@,
    {
        Self { addr }
    }

    pub fn addr(&self) -> (r: &str)
        ensures
            r@ == self.address(),
    {
        self.addr.as_str()
    }

    /// The step that `react` gives, and the handler that it leaves: see
    /// there.
    pub open spec fn reacts<H: Handler>(
        before: Option<H>,
        after: Option<H>,
        outcome: ReadOutcome,
        ip: u128,
        client: Seq<char>,
        now: u64,
        unix_millis: u128,
        step: Option<StepView>,
    ) -> bool {
        match outcome {
            ReadOutcome::Failed => step is None && after == before,
            ReadOutcome::TimedOut => step == Some(StepView::Respond(timeout_response())) && after
                == before,
            ReadOutcome::Data(bytes) => if bytes@.len() == 0 {
                step is None && after == before
            } else {
                match parsed(bytes@) {
                    Err(_) => step == Some(StepView::Respond(bad_request_response())) && after
                        == before,
                    Ok(request) => match before {
                        Some(h) => step matches Some(s) && after matches Some(left) && H::handles(
                            h,
                            left,
                            request,
                            ip,
                            client,
                            now,
                            unix_millis,
                            s,
                        ),
                        None => step == Some(StepView::Respond(rate_limited_response())),
                    },
                }
            },
        }
    }

    /// The reason that `react` gives: none where the read failed, timed out
    /// or brought nothing; the parse error where the bytes hold no request;
    /// else what the handler says of the request, or that there is no
    /// handler.
    pub open spec fn reason<H: Handler>(
        before: Option<H>,
        outcome: ReadOutcome,
        ip: u128,
        now: u64,
    ) -> Option<Rejection> {
        match outcome {
            ReadOutcome::Data(bytes) => if bytes@.len() == 0 {
                None
            } else {
                match parsed(bytes@) {
                    Err(e) => Some(Rejection::Unparsable(e)),
                    Ok(request) => match before {
                        Some(h) => h.rejection_of(request, ip, now),
                        None => Some(Rejection::Unavailable),
                    },
                }
            },
            _ => None,
        }
    }

    /// Decides what becomes of a connection once its read is over, and says
    /// why where a request is turned away. A step of `None` means that the
    /// connection is dropped without a response: that is so where the read
    /// failed and where it brought no bytes. A read that timed out is
    /// answered with 408, bytes that hold no request with 400, and a request
    /// with the step that the handler gives for it. `handler` is `None`
    /// where the handler could not be locked: the request is then turned
    /// away as if the client were over its rate limit.
    pub fn react<H: Handler>(
        handler: Option<&mut H>,
        outcome: ReadOutcome,
        client_ip: &ClientAddr,
        now: u64,
        unix_millis: u128,
    ) -> (r: Reaction)
        ensures
            Self::reacts(
                match handler {
                    Some(h) => Some(*h),
                    None => None,
                },
                match handler {
                    Some(h) => Some(*final(h)),
                    None => None,
                },
                outcome,
                client_ip.ip,
                client_ip.text@,
                now,
                unix_millis,
                match r.step {
                    Some(s) => Some(s@),
                    None => None,
                },
            ),
            r.rejection == Self::reason(
                match handler {
                    Some(h) => Some(*h),
                    None => None,
                },
                outcome,
                client_ip.ip,
                now,
            ),
    {
        match outcome {
            ReadOutcome::Failed => Reaction { step: None, rejection: None },
            ReadOutcome::TimedOut => Reaction {
                step: Some(
                    Step::Respond(
                        Response::new(StatusCode::RequestTimeout, Some(TIMEOUT_BODY.to_owned())),
                    ),
                ),
                rejection: None,
            },
            ReadOutcome::Data(bytes) => {
                if bytes.len() == 0 {
                    return Reaction { step: None, rejection: None };
                }
                match Request::parse(bytes.as_slice()) {
                    Ok(request) => match handler {
                        Some(h) => {
                            let rejection = h.rejection(&request, client_ip, now);
                            let step = h.handle_request(&request, client_ip, now, unix_millis);
                            Reaction { step: Some(step), rejection }
                        },
                        None => Reaction {
                            step: Some(Step::Respond(Response::rate_limited())),
                            rejection: Some(Rejection::Unavailable),
                        },
                    },
                    Err(e) => {
                        let response = match handler {
                            Some(h) => h.handle_bad_request(&e),
                            None => Response::new(
                                StatusCode::BadRequest,
                                Some(INVALID_REQUEST_BODY.to_owned()),
                            ),
                        };
                        Reaction {
                            step: Some(Step::Respond(response)),
                            rejection: Some(Rejection::Unparsable(e)),
                        }
                    },
                }
            },
        }
    }

    /// Decides what becomes of a connection once its read is over. `None`
    /// means that the connection is dropped without a response: that is so
    /// where the read failed and where it brought no bytes. A read that
    /// timed out is answered with 408, bytes that hold no request with 400,
    /// and a request with the step that the handler gives for it. `handler`
    /// is `None` where the handler could not be locked: the request is then
    /// turned away as if the client were over its rate limit.
    pub fn on_read<H: Handler>(
        handler: Option<&mut H>,
        outcome: ReadOutcome,
        client_ip: &ClientAddr,
        now: u64,
        unix_millis: u128,
    ) -> (r: Option<Step>)
        ensures
            Self::reacts(
                match handler {
                    Some(h) => Some(*h),
                    None => None,
                },
                match handler {
                    Some(h) => Some(*final(h)),
                    None => None,
                },
                outcome,
                client_ip.ip,
                client_ip.text@,
                now,
                unix_millis,
                match r {
                    Some(s) => Some(s@),
                    None => None,
                },
            ),
    {
        Self::react(handler, outcome, client_ip, now, unix_millis).step
    }
}

} // verus!
