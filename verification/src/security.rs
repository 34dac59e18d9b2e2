//! The security policy: what a request path, a file extension, a host and a
//! user agent must look like, and how many requests one client may make.

use crate::text::{
    after_last, all_ascii, ascii_lowered, byte_len, chars_of, contains, contains_char,
    last_piece_start, lemma_after_last_of_joined, lowered, occurs_in, same_chars, string_of,
    to_lowered, utf8_len,
};
use std::collections::HashMap;
use vstd::prelude::*;
use vstd::std_specs::hash::spec_keys_iter;
use vstd::std_specs::iter::IteratorSpec;

verus! {

/// Timestamps and the rate-limit window count nanoseconds of a monotonic
/// clock.
pub const NANOS_PER_SECOND: u64 = 1_000_000_000;

/// The number of distinct clients above which the ledger is swept.
pub const SWEEP_THRESHOLD: usize = 1000;

/// The parameters of the policy, fixed when the server starts.
pub struct SecurityConfig {
    /// The most requests that one client may make within one window.
    pub rate_limit_requests: usize,
    /// The length of the sliding window, in nanoseconds.
    pub rate_limit_window: u64,
    /// The file extensions that may be served, in lowercase.
    pub allowed_file_extensions: Vec<&'static str>,
    /// The values of the `Host` header that are accepted.
    pub allowed_hosts: Vec<&'static str>,
    /// The greatest length of a request path, in bytes.
    pub max_path_length: usize,
}

/// A configuration as mathematical values.
pub ghost struct SecurityConfigView {
    pub rate_limit_requests: nat,
    pub rate_limit_window: nat,
    pub allowed_file_extensions: Seq<Seq<char>>,
    pub allowed_hosts: Seq<Seq<char>>,
    pub max_path_length: nat,
}

/// The texts of a list of string slices.
pub open spec fn texts(list: Seq<&'static str>) -> Seq<Seq<char>> {
    Seq::new(list.len(), |i: int| list[i]@)
}

impl View for SecurityConfig {
    type V = SecurityConfigView;

    open spec fn view(&self) -> SecurityConfigView {
        SecurityConfigView {
            rate_limit_requests: self.rate_limit_requests as nat,
            rate_limit_window: self.rate_limit_window as nat,
            allowed_file_extensions: texts(self.allowed_file_extensions@),
            allowed_hosts: texts(self.allowed_hosts@),
            max_path_length: self.max_path_length as nat,
        }
    }
}

/// The extensions that the default configuration allows.
pub open spec fn default_extensions() -> Seq<Seq<char>> {
    seq![
        "html"@,
        "css"@,
        "js"@,
        "json"@,
        "txt"@,
        "xml"@,
        "png"@,
        "jpg"@,
        "jpeg"@,
        "gif"@,
        "svg"@,
        "ico"@,
        "webp"@,
    ]
}

/// The hosts that the default configuration allows.
pub open spec fn default_hosts() -> Seq<Seq<char>> {
    seq!["127.0.0.1:8080"@, "localhost:8080"@]
}

fn copy_list(list: &Vec<&'static str>) -> (r: Vec<&'static str>)
    ensures
        r@ == list@,
{
    let mut r: Vec<&'static str> = Vec::new();
    let mut i: usize = 0;
    while i < list.len()
        invariant
            i <= list.len(),
            r@ == list@.take(i as int),
        decreases list.len() - i,
    {
        r.push(list[i]);
        proof {
            assert(list@.take(i + 1) =~= list@.take(i as int).push(list@[i as int]));
        }
        i += 1;
    }
    assert(list@.take(list.len() as int) =~= list@);
    r
}

impl Clone for SecurityConfig {
    fn clone(&self) -> (r: Self)
        ensures
            r@ == self@,
    {
        SecurityConfig {
            rate_limit_requests: self.rate_limit_requests,
            rate_limit_window: self.rate_limit_window,
            allowed_file_extensions: copy_list(&self.allowed_file_extensions),
            allowed_hosts: copy_list(&self.allowed_hosts),
            max_path_length: self.max_path_length,
        }
    }
}

impl Default for SecurityConfig {
    /// 100 requests per 60 seconds, the usual web file types, the two local
    /// hosts, and paths of at most 255 bytes.
    fn default() -> (r: Self)
        ensures
            r@ == (SecurityConfigView {
                rate_limit_requests: 100,
                rate_limit_window: 60 * NANOS_PER_SECOND as nat,
                allowed_file_extensions: default_extensions(),
                allowed_hosts: default_hosts(),
                max_path_length: 255,
            }),
    {
        let mut extensions: Vec<&'static str> = Vec::new();
        extensions.push("html");
        extensions.push("css");
        extensions.push("js");
        extensions.push("json");
        extensions.push("txt");
        extensions.push("xml");
        extensions.push("png");
        extensions.push("jpg");
        extensions.push("jpeg");
        extensions.push("gif");
        extensions.push("svg");
        extensions.push("ico");
        extensions.push("webp");
        let mut hosts: Vec<&'static str> = Vec::new();
        hosts.push("127.0.0.1:8080");
        hosts.push("localhost:8080");
        let r = SecurityConfig {
            rate_limit_requests: 100,
            rate_limit_window: 60 * NANOS_PER_SECOND,
            allowed_file_extensions: extensions,
            allowed_hosts: hosts,
            max_path_length: 255,
        };
        assert(r@.allowed_file_extensions =~= default_extensions());
        assert(r@.allowed_hosts =~= default_hosts());
        r
    }
}

/// Why a request path is turned away.
#[derive(Copy, Clone, Debug, PartialEq, Eq, Structural)]
pub enum PathError {
    /// The path is longer than the configuration allows.
    PathTooLong,
    /// The path holds `..` or a null character.
    InvalidCharacters,
    /// The path names a sensitive place of the file system.
    ForbiddenPath,
}

impl PathError {
    pub open spec fn text(self) -> Seq<char> {
        match self {
            PathError::PathTooLong => "Path too long"@,
            PathError::InvalidCharacters => "Invalid path characters"@,
            PathError::ForbiddenPath => "Forbidden path"@,
        }
    }

    /// The reason in words, for the server's own log.
    pub fn message(&self) -> (r: &'static str)
        ensures
            r@ == self.text(),
    {
        match self {
            PathError::PathTooLong => "Path too long",
            PathError::InvalidCharacters => "Invalid path characters",
            PathError::ForbiddenPath => "Forbidden path",
        }
    }
}

/// The path holds a fragment that names a sensitive place.
pub open spec fn has_forbidden_fragment(path: Seq<char>) -> bool {
    ||| occurs_in(path, "/etc/"@)
    ||| occurs_in(path, "/proc/"@)
    ||| occurs_in(path, "/sys/"@)
    ||| occurs_in(path, "/dev/"@)
    ||| occurs_in(path, "/.env"@)
    ||| occurs_in(path, "/.git"@)
}

/// The path tries to climb out of a directory or to cut a C string short.
pub open spec fn has_invalid_characters(path: Seq<char>) -> bool {
    occurs_in(path, ".."@) || path.contains('\0')
}

/// The verdict on a request path: the first of the three checks that fails
/// decides.
pub open spec fn path_verdict(max_len: nat, path: Seq<char>) -> Result<(), PathError> {
    if utf8_len(path) > max_len {
        Err(PathError::PathTooLong)
    } else if has_invalid_characters(path) {
        Err(PathError::InvalidCharacters)
    } else if has_forbidden_fragment(path) {
        Err(PathError::ForbiddenPath)
    } else {
        Ok(())
    }
}

/// The path ends in a dot and an extension whose lowercase form is on the
/// list. A path without a dot has no extension and is not allowed.
pub open spec fn extension_allowed(allowed: Seq<Seq<char>>, path: Seq<char>) -> bool {
    match after_last(path, '.') {
        Some(extension) => allowed.contains(lowered(extension)),
        None => false,
    }
}

/// No host was named, or the one named is on the list, letter for letter.
pub open spec fn host_allowed(allowed: Seq<Seq<char>>, host: Option<Seq<char>>) -> bool {
    match host {
        Some(h) => allowed.contains(h),
        None => true,
    }
}

/// The text holds one of the fragments that mark an attempt at script
/// injection.
pub open spec fn has_injection_marks(text: Seq<char>) -> bool {
    ||| occurs_in(text, "<script"@)
    ||| occurs_in(text, "javascript:"@)
    ||| occurs_in(text, "data:"@)
    ||| occurs_in(text, "vbscript:"@)
    ||| occurs_in(text, "onload="@)
}

/// The lowercase form of the user agent holds none of the marks of script
/// injection.
pub open spec fn user_agent_clean(user_agent: Seq<char>) -> bool {
    !has_injection_marks(lowered(user_agent))
}

/// Whether a text, already in lowercase, holds one of the marks of script
/// injection.
pub fn check_injection_marks(lowered: &str) -> (r: bool)
    ensures
        r == has_injection_marks(lowered@),
{
    let text = chars_of(lowered);
    contains(&text, &chars_of("<script")) || contains(&text, &chars_of("javascript:"))
        || contains(&text, &chars_of("data:")) || contains(&text, &chars_of("vbscript:"))
        || contains(&text, &chars_of("onload="))
}

/// The extension check goes by the lowercase form of the extension alone.
/// A path whose extension is a case variant of a listed one, in that its
/// lowercase form is on the list, is accepted; a path whose extension has
/// no such form on the list is rejected, as is a path without a dot; and
/// two paths whose extensions differ in case alone fare alike.
pub proof fn extension_check_ignores_case(
    allowed: Seq<Seq<char>>,
    path: Seq<char>,
    other: Seq<char>,
)
    ensures
        after_last(path, '.') matches Some(extension) ==> (extension_allowed(allowed, path)
            <==> allowed.contains(lowered(extension))),
        after_last(path, '.') is None ==> !extension_allowed(allowed, path),
        after_last(path, '.') matches Some(extension) && after_last(other, '.') matches Some(
            variant,
        ) && lowered(extension) == lowered(variant) ==> extension_allowed(allowed, path)
            == extension_allowed(allowed, other),
{
}

/// A file name whose extension is an ASCII case variant of a listed
/// extension passes the check, and one whose extension is an ASCII text
/// with no such variant on the list fails it: with `html` on the list,
/// `.HTML` and `.Html` pass as `.html` does.
pub proof fn ascii_case_variants_fare_alike(
    allowed: Seq<Seq<char>>,
    stem: Seq<char>,
    extension: Seq<char>,
)
    requires
        all_ascii(extension),
        !extension.contains('.'),
    ensures
        extension_allowed(allowed, stem + seq!['.'] + extension) <==> allowed.contains(
            ascii_lowered(extension),
        ),
{
    lemma_after_last_of_joined(stem, '.', extension);
}

/// Whether `list` holds the text `wanted`.
fn list_holds(list: &Vec<&'static str>, wanted: &str) -> (r: bool)
    ensures
        r == texts(list@).contains(wanted@),
{
    let w = chars_of(wanted);
    let mut i: usize = 0;
    while i < list.len()
        invariant
            i <= list.len(),
            w@ == wanted@,
            forall|k: int| 0 <= k < i ==> texts(list@)[k] != wanted@,
        decreases list.len() - i,
    {
        let entry = chars_of(list[i]);
        if same_chars(&entry, &w) {
            assert(texts(list@)[i as int] == wanted@);
            return true;
        }
        i += 1;
    }
    false
}

/// The stateless checks of the policy.
pub struct SecurityValidator {
    config: SecurityConfig,
}

impl SecurityValidator {
    /// The configuration that the checks go by.
    pub closed spec fn config(&self) -> SecurityConfigView {
        self.config@
    }

    pub fn new(config: SecurityConfig) -> (r: Self)
        ensures
            r.config() == config@,
    {
        Self { config }
    }

    /// Checks a request path: its length, then its characters, then the
    /// fragments it must not hold.
    pub fn validate_path(&self, path: &str) -> (r: Result<(), PathError>)
        ensures
            r == path_verdict(self.config().max_path_length, path@),
    {
        if byte_len(path) > self.config.max_path_length {
            return Err(PathError::PathTooLong);
        }
        let p = chars_of(path);
        if contains(&p, &chars_of("..")) || contains_char(&p, '\0') {
            return Err(PathError::InvalidCharacters);
        }
        if contains(&p, &chars_of("/etc/")) || contains(&p, &chars_of("/proc/")) || contains(
            &p,
            &chars_of("/sys/"),
        ) || contains(&p, &chars_of("/dev/")) || contains(&p, &chars_of("/.env")) || contains(
            &p,
            &chars_of("/.git"),
        ) {
            return Err(PathError::ForbiddenPath);
        }
        Ok(())
    }

    /// Whether an extension, already in lowercase, is on the allow-list.
    pub fn lists_extension(&self, lowered: &str) -> (r: bool)
        ensures
            r == self.config().allowed_file_extensions.contains(lowered@),
    {
        list_holds(&self.config.allowed_file_extensions, lowered)
    }

    /// Checks the extension of a file path against the allow-list, without
    /// regard to case.
    pub fn validate_file_extension(&self, file_path: &str) -> (r: bool)
        ensures
            r == extension_allowed(self.config().allowed_file_extensions, file_path@),
    {
        let p = chars_of(file_path);
        match last_piece_start(&p, '.') {
            Some(k) => {
                let extension = string_of(&p, k, p.len());
                let lower = to_lowered(extension.as_str());
                self.lists_extension(lower.as_str())
            },
            None => false,
        }
    }

    /// Checks the `Host` header against the allow-list. A request without
    /// the header passes.
    pub fn validate_host(&self, host: Option<&str>) -> (r: bool)
        ensures
            r == host_allowed(
                self.config().allowed_hosts,
                match host {
                    Some(h) => Some(h@),
                    None => None,
                },
            ),
    {
        match host {
            Some(host_header) => list_holds(&self.config.allowed_hosts, host_header),
            None => true,
        }
    }

    /// Checks a user agent for the marks of script injection. This is a
    /// coarse filter on substrings, not a parser, and no security boundary.
    pub fn sanitize_user_agent(&self, user_agent: &str) -> (r: bool)
        ensures
            r == user_agent_clean(user_agent@),
    {
        let lower = to_lowered(user_agent);
        !check_injection_marks(lower.as_str())
    }
}

/// A request made at `t` still counts at `now`: it is less than one window
/// old. A timestamp that lies after `now` has the age zero.
pub open spec fn is_fresh(now: u64, window: u64, t: u64) -> bool {
    (if now >= t {
        now - t
    } else {
        0
    }) < window
}

/// The timestamps of `times` that still count at `now`, in their order.
pub open spec fn fresh_part(times: Seq<u64>, now: u64, window: u64) -> Seq<u64> {
    times.filter(|t: u64| is_fresh(now, window, t))
}

/// The ledger after a sweep: every list pruned, and the clients dropped
/// whose list is then empty.
pub open spec fn swept(ledger: Map<u128, Seq<u64>>, now: u64, window: u64) -> Map<
    u128,
    Seq<u64>,
> {
    Map::new(
        |ip: u128| ledger.contains_key(ip) && fresh_part(ledger[ip], now, window).len() > 0,
        |ip: u128| fresh_part(ledger[ip], now, window),
    )
}

/// The ledger as a call finds it once the sweep, if one is due, is done. A
/// sweep is due when the ledger holds more than `SWEEP_THRESHOLD` clients.
pub open spec fn tidied(ledger: Map<u128, Seq<u64>>, now: u64, window: u64) -> Map<
    u128,
    Seq<u64>,
> {
    if ledger.dom().len() > SWEEP_THRESHOLD {
        swept(ledger, now, window)
    } else {
        ledger
    }
}

/// The requests of `ip` that still count at `now`.
pub open spec fn recent(ledger: Map<u128, Seq<u64>>, ip: u128, now: u64, window: u64) -> Seq<
    u64,
> {
    let before = tidied(ledger, now, window);
    if before.contains_key(ip) {
        fresh_part(before[ip], now, window)
    } else {
        Seq::empty()
    }
}

/// A request of `ip` at `now` is let through: fewer than `limit` of its
/// requests still count.
pub open spec fn admits(
    ledger: Map<u128, Seq<u64>>,
    limit: nat,
    window: u64,
    ip: u128,
    now: u64,
) -> bool {
    recent(ledger, ip, now, window).len() < limit
}

/// The ledger after a request of `ip` at `now`: swept if that was due, the
/// list of `ip` pruned, and `now` added to it if the request was let
/// through.
pub open spec fn ledger_after(
    ledger: Map<u128, Seq<u64>>,
    limit: nat,
    window: u64,
    ip: u128,
    now: u64,
) -> Map<u128, Seq<u64>> {
    let counted = recent(ledger, ip, now, window);
    tidied(ledger, now, window).insert(
        ip,
        if counted.len() < limit {
            counted.push(now)
        } else {
            counted
        },
    )
}

/// The timestamps of `times` that still count at `now`.
fn keep_fresh(times: &Vec<u64>, now: u64, window: u64) -> (r: Vec<u64>)
    ensures
        r@ == fresh_part(times@, now, window),
{
    let mut r: Vec<u64> = Vec::new();
    let mut i: usize = 0;
    proof {
        reveal(Seq::filter);
        assert(times@.take(0) =~= Seq::<u64>::empty());
    }
    while i < times.len()
        invariant
            i <= times.len(),
            r@ == fresh_part(times@.take(i as int), now, window),
        decreases times.len() - i,
    {
        let t = times[i];
        let age: u64 = if now >= t {
            now - t
        } else {
            0
        };
        proof {
            reveal(Seq::filter);
            assert(times@.take(i + 1).drop_last() =~= times@.take(i as int));
            assert(times@.take(i + 1).last() == t);
        }
        if age < window {
            r.push(t);
        }
        i += 1;
    }
    assert(times@.take(times.len() as int) =~= times@);
    r
}

/// The sliding-window limiter: for each client the times of its requests
/// that were let through.
pub struct RateLimiter {
    requests: HashMap<u128, Vec<u64>>,
    config: SecurityConfig,
}

impl RateLimiter {
    /// The ledger: for each client on record the times of its requests, in
    /// the order in which they came.
    pub closed spec fn ledger(&self) -> Map<u128, Seq<u64>> {
        Map::new(|ip: u128| self.requests@.contains_key(ip), |ip: u128| self.requests@[ip]@)
    }

    /// The configuration that the limiter goes by.
    pub closed spec fn config(&self) -> SecurityConfigView {
        self.config@
    }

    /// The limit on requests per window.
    pub open spec fn limit(&self) -> nat {
        self.config().rate_limit_requests
    }

    /// The length of the window.
    pub closed spec fn window(&self) -> u64 {
        self.config.rate_limit_window
    }

    /// A limiter with an empty ledger.
    pub fn new(config: SecurityConfig) -> (r: Self)
        ensures
            r.config() == config@,
            r.window() == config.rate_limit_window,
            r.ledger() == Map::<u128, Seq<u64>>::empty(),
    {
        let r = Self { requests: HashMap::new(), config };
        assert(r.ledger() =~= Map::<u128, Seq<u64>>::empty());
        r
    }

    /// The number of clients on record.
    pub fn clients(&self) -> (n: usize)
        ensures
            n == self.ledger().dom().len(),
    {
        assert(self.ledger().dom() =~= self.requests@.dom());
        self.requests.len()
    }

    /// The number of requests on record for the client `ip`.
    pub fn recorded(&self, ip: u128) -> (n: usize)
        ensures
            n == if self.ledger().contains_key(ip) {
                self.ledger()[ip].len()
            } else {
                0
            },
    {
        match self.requests.get(&ip) {
            Some(times) => times.len(),
            None => 0,
        }
    }

    /// Whether a request of the client `ip` at the time `now` would be let
    /// through. Nothing is recorded.
    pub fn would_allow(&self, ip: u128, now: u64) -> (allowed: bool)
        ensures
            allowed == admits(self.ledger(), self.limit(), self.window(), ip, now),
    {
        let window = self.config.rate_limit_window;
        let counted: usize = match self.requests.get(&ip) {
            Some(times) => {
                let fresh = keep_fresh(times, now, window);
                proof {
                    // Pruning a pruned list changes nothing, so a sweep that is
                    // due leaves the count as it is.
                    let kept = fresh@;
                    lemma_filter_members(times@, |t: u64| is_fresh(now, window, t));
                    lemma_filter_agree(kept, |t: u64| is_fresh(now, window, t), |t: u64| true);
                    lemma_filter_all(kept);
                    assert(fresh_part(kept, now, window) == kept);
                }
                fresh.len()
            },
            None => 0,
        };
        proof {
            assert(self.ledger().dom() =~= self.requests@.dom());
            reveal(Seq::filter);
            assert(fresh_part(Seq::<u64>::empty(), now, window) =~= Seq::<u64>::empty());
        }
        counted < self.config.rate_limit_requests
    }

    /// Prunes every list and drops the clients left without a request.
    fn sweep(&mut self, now: u64)
        ensures
            final(self).config == old(self).config,
            final(self).ledger() == swept(old(self).ledger(), now, old(self).window()),
    {
        let window = self.config.rate_limit_window;
        let mut clients: Vec<u128> = Vec::new();
        for ip in it: self.requests.keys()
            invariant
                clients@ == it.seq().unref().take(it.index()),
        {
            proof {
                let all = it.seq().unref();
                assert(all.take(it.index() + 1) =~= all.take(it.index()).push(*ip));
            }
            clients.push(*ip);
        }
        proof {
            let all = spec_keys_iter(&self.requests).remaining().unref();
            assert(clients@ =~= all);
            assert(clients@.to_set() == self.requests@.dom());
        }
        let mut kept: HashMap<u128, Vec<u64>> = HashMap::new();
        let mut i: usize = 0;
        while i < clients.len()
            invariant
                i <= clients.len(),
                window == self.config.rate_limit_window,
                clients@.no_duplicates(),
                clients@.to_set() == self.requests@.dom(),
                forall|ip: u128|
                    kept@.contains_key(ip) <==> clients@.take(i as int).contains(ip) && fresh_part(
                        self.requests@[ip]@,
                        now,
                        window,
                    ).len() > 0,
                forall|ip: u128|
                    kept@.contains_key(ip) ==> (#[trigger] kept@[ip])@ == fresh_part(
                        self.requests@[ip]@,
                        now,
                        window,
                    ),
            decreases clients.len() - i,
        {
            let ip = clients[i];
            assert(clients@.to_set().contains(ip));
            let times = self.requests.get(&ip).unwrap();
            let fresh = keep_fresh(times, now, window);
            proof {
                let done = clients@.take(i as int);
                let next = clients@.take(i + 1);
                assert(next =~= done.push(ip));
                assert forall|other: u128| next.contains(other) <==> done.contains(other) || other
                    == ip by {
                    if done.contains(other) {
                        let j = choose|j: int| 0 <= j < done.len() && done[j] == other;
                        assert(next[j] == other);
                    }
                    if other == ip {
                        assert(next[i as int] == ip);
                    }
                }
                assert(!done.contains(ip)) by {
                    if done.contains(ip) {
                        let j = choose|j: int| 0 <= j < done.len() && done[j] == ip;
                        assert(clients@[j] == clients@[i as int]);
                    }
                }
            }
            if fresh.len() > 0 {
                kept.insert(ip, fresh);
            }
            i += 1;
        }
        proof {
            assert(clients@.take(clients.len() as int) =~= clients@);
            assert(kept@.dom() =~= swept(self.ledger(), now, window).dom()) by {
                assert forall|ip: u128| self.requests@.contains_key(ip) implies clients@.contains(
                    ip,
                ) by {
                    assert(clients@.to_set().contains(ip));
                }
            }
        }
        self.requests = kept;
        assert(self.ledger() =~= swept(old(self).ledger(), now, window));
    }

    /// Decides on a request of the client `ip` at the time `now`, and
    /// records it if it is let through.
    pub fn is_allowed(&mut self, ip: u128, now: u64) -> (allowed: bool)
        ensures
            final(self).config() == old(self).config(),
            final(self).window() == old(self).window(),
            allowed == admits(old(self).ledger(), old(self).limit(), old(self).window(), ip, now),
            final(self).ledger() == ledger_after(
                old(self).ledger(),
                old(self).limit(),
                old(self).window(),
                ip,
                now,
            ),
    {
        if self.requests.len() > SWEEP_THRESHOLD {
            self.sweep(now);
        }
        let ghost before = self.ledger();
        assert(before == tidied(old(self).ledger(), now, old(self).window())) by {
            assert(old(self).ledger().dom() =~= old(self).requests@.dom());
        }
        let mut counted = match self.requests.get(&ip) {
            Some(times) => keep_fresh(times, now, self.config.rate_limit_window),
            None => Vec::new(),
        };
        assert(counted@ == recent(old(self).ledger(), ip, now, old(self).window()));
        let allowed = counted.len() < self.config.rate_limit_requests;
        if allowed {
            counted.push(now);
        }
        self.requests.insert(ip, counted);
        assert(self.ledger() =~= before.insert(ip, counted@));
        allowed
    }
}

/// One request as the limiter sees it: who made it, and when.
pub ghost struct Call {
    pub ip: u128,
    pub at: u64,
}

/// The ledger after the requests of `calls`, made in their order.
pub open spec fn ledger_after_calls(
    ledger: Map<u128, Seq<u64>>,
    limit: nat,
    window: u64,
    calls: Seq<Call>,
) -> Map<u128, Seq<u64>>
    decreases calls.len(),
{
    if calls.len() == 0 {
        ledger
    } else {
        ledger_after(
            ledger_after_calls(ledger, limit, window, calls.drop_last()),
            limit,
            window,
            calls.last().ip,
            calls.last().at,
        )
    }
}

/// How many of `calls` the client `ip` made.
pub open spec fn calls_of(calls: Seq<Call>, ip: u128) -> nat {
    calls.filter(|c: Call| c.ip == ip).len()
}

/// The times of `calls` never go back, and the last lies less than one
/// window after the first.
pub open spec fn within_one_window(calls: Seq<Call>, window: u64) -> bool {
    &&& forall|i: int, j: int| 0 <= i <= j < calls.len() ==> calls[i].at <= calls[j].at
    &&& calls.len() > 0 ==> calls.last().at - calls[0].at < window
}

/// Every timestamp of `s` is either too old to count at `start` or lies
/// between `start` and `latest`.
spec fn settled(s: Seq<u64>, start: u64, latest: u64, window: u64) -> bool {
    forall|i: int|
        0 <= i < s.len() ==> (#[trigger] s[i]) + window <= start || start <= s[i] <= latest
}

/// The timestamps of `s` from `start` on.
spec fn since(s: Seq<u64>, start: u64) -> Seq<u64> {
    s.filter(|t: u64| t >= start)
}

/// What the proof of the limit carries from call to call: `ip` has made
/// `made` requests since `start`, and as many of them as the limit allows
/// are on record.
spec fn on_record(
    ledger: Map<u128, Seq<u64>>,
    ip: u128,
    start: u64,
    latest: u64,
    made: nat,
    limit: nat,
    window: u64,
) -> bool {
    if ledger.contains_key(ip) {
        &&& settled(ledger[ip], start, latest, window)
        &&& since(ledger[ip], start).len() == if made < limit {
            made
        } else {
            limit
        }
    } else {
        made == 0 || limit == 0
    }
}

/// Two predicates that agree on every element of `s` filter `s` alike.
proof fn lemma_filter_agree(s: Seq<u64>, p: spec_fn(u64) -> bool, q: spec_fn(u64) -> bool)
    requires
        forall|i: int| 0 <= i < s.len() ==> p(#[trigger] s[i]) == q(s[i]),
    ensures
        s.filter(p) == s.filter(q),
    decreases s.len(),
{
    reveal(Seq::filter);
    if s.len() > 0 {
        let front = s.drop_last();
        assert forall|i: int| 0 <= i < front.len() implies p(#[trigger] front[i]) == q(
            front[i],
        ) by {
            assert(front[i] == s[i]);
        }
        lemma_filter_agree(front, p, q);
        assert(p(s[s.len() - 1]) == q(s[s.len() - 1]));
    }
}

/// Filtering keeps only elements of the sequence, each of which meets the
/// predicate.
proof fn lemma_filter_members(s: Seq<u64>, p: spec_fn(u64) -> bool)
    ensures
        forall|i: int|
            0 <= i < s.filter(p).len() ==> p(#[trigger] s.filter(p)[i]) && s.contains(
                s.filter(p)[i],
            ),
        s.filter(p).len() == 0 ==> forall|i: int| 0 <= i < s.len() ==> !p(#[trigger] s[i]),
        s.filter(p).len() <= s.len(),
    decreases s.len(),
{
    reveal(Seq::filter);
    if s.len() > 0 {
        let front = s.drop_last();
        lemma_filter_members(front, p);
        let out = s.filter(p);
        assert forall|i: int| 0 <= i < out.len() implies p(#[trigger] out[i]) && s.contains(
            out[i],
        ) by {
            if i < front.filter(p).len() {
                assert(out[i] == front.filter(p)[i]);
                let j = choose|j: int| 0 <= j < front.len() && front[j] == front.filter(p)[i];
                assert(s[j] == out[i]);
            } else {
                assert(out[i] == s[s.len() - 1]);
            }
        }
        if out.len() == 0 {
            assert forall|i: int| 0 <= i < s.len() implies !p(#[trigger] s[i]) by {
                if i < front.len() {
                    assert(front[i] == s[i]);
                }
            }
        }
    }
}

/// Within the window that began at `start`, the timestamps that still count
/// are those from `start` on.
proof fn lemma_fresh_is_since(s: Seq<u64>, start: u64, latest: u64, now: u64, window: u64)
    requires
        settled(s, start, latest, window),
        start <= latest <= now,
        now - start < window,
    ensures
        fresh_part(s, now, window) == since(s, start),
        settled(since(s, start), start, latest, window),
{
    lemma_filter_agree(s, |t: u64| is_fresh(now, window, t), |t: u64| t >= start);
    lemma_filter_members(s, |t: u64| t >= start);
    let kept = since(s, start);
    assert forall|i: int| 0 <= i < kept.len() implies (#[trigger] kept[i]) + window <= start
        || start <= kept[i] <= latest by {
        let j = choose|j: int| 0 <= j < s.len() && s[j] == kept[i];
        assert(s[j] == kept[i]);
    }
}

/// One more request keeps what the proof carries, and a request of `ip` is
/// let through exactly when `ip` has made fewer requests than the limit.
proof fn lemma_on_record_step(
    ledger: Map<u128, Seq<u64>>,
    ip: u128,
    start: u64,
    latest: u64,
    made: nat,
    limit: nat,
    window: u64,
    call: Call,
)
    requires
        on_record(ledger, ip, start, latest, made, limit, window),
        start <= latest <= call.at,
        call.at - start < window,
    ensures
        on_record(
            ledger_after(ledger, limit, window, call.ip, call.at),
            ip,
            start,
            call.at,
            if call.ip == ip {
                made + 1
            } else {
                made
            },
            limit,
            window,
        ),
        call.ip == ip ==> (admits(ledger, limit, window, ip, call.at) <==> made < limit),
{
    let now = call.at;
    let before = tidied(ledger, now, window);
    let after = ledger_after(ledger, limit, window, call.ip, now);
    // What the ledger holds of `ip` once a sweep that was due is done.
    if ledger.contains_key(ip) {
        lemma_fresh_is_since(ledger[ip], start, latest, now, window);
        lemma_filter_members(ledger[ip], |t: u64| t >= start);
    }
    if before.contains_key(ip) {
        let s = before[ip];
        assert(settled(s, start, latest, window));
        lemma_fresh_is_since(s, start, latest, now, window);
        if ledger.dom().len() > SWEEP_THRESHOLD {
            // The list was pruned: pruning it again changes nothing.
            lemma_filter_members(since(ledger[ip], start), |t: u64| t >= start);
            lemma_filter_agree(since(ledger[ip], start), |t: u64| t >= start, |t: u64| true);
            lemma_filter_all(since(ledger[ip], start));
        }
        assert(since(s, start) == since(ledger[ip], start));
    }
    let counted = recent(ledger, ip, now, window);
    assert(counted.len() == if made < limit {
        made
    } else {
        limit
    });
    if call.ip == ip {
        let kept = if counted.len() < limit {
            counted.push(now)
        } else {
            counted
        };
        assert(after[ip] == kept);
        if before.contains_key(ip) {
            assert(counted == since(before[ip], start));
            assert(settled(counted, start, latest, window));
        }
        assert forall|i: int| 0 <= i < kept.len() implies (#[trigger] kept[i]) + window <= start
            || start <= kept[i] <= now by {
            if i < counted.len() {
                assert(kept[i] == counted[i]);
            }
        }
        assert forall|i: int| 0 <= i < kept.len() implies (#[trigger] kept[i]) >= start by {
            if i < counted.len() {
                assert(kept[i] == counted[i]);
                if before.contains_key(ip) {
                    lemma_filter_members(before[ip], |t: u64| t >= start);
                }
            }
        }
        lemma_filter_agree(kept, |t: u64| t >= start, |t: u64| true);
        lemma_filter_all(kept);
    } else {
        assert(after.contains_key(ip) == before.contains_key(ip));
        if after.contains_key(ip) {
            assert(after[ip] == before[ip]);
            let s = after[ip];
            assert forall|i: int| 0 <= i < s.len() implies (#[trigger] s[i]) + window <= start
                || start <= s[i] <= now by {}
        }
    }
}

/// A filter that lets everything through changes nothing.
proof fn lemma_filter_all(s: Seq<u64>)
    ensures
        s.filter(|t: u64| true) == s,
    decreases s.len(),
{
    reveal(Seq::filter);
    if s.len() > 0 {
        lemma_filter_all(s.drop_last());
        assert(s.drop_last().push(s.last()) =~= s);
    }
}

/// What the proof carries holds after any number of the calls.
proof fn lemma_on_record_after(
    ledger: Map<u128, Seq<u64>>,
    limit: nat,
    window: u64,
    calls: Seq<Call>,
    ip: u128,
    n: int,
)
    requires
        calls.len() > 0,
        within_one_window(calls, window),
        ledger.contains_key(ip) ==> fresh_part(ledger[ip], calls[0].at, window).len() == 0,
        0 <= n <= calls.len(),
    ensures
        on_record(
            ledger_after_calls(ledger, limit, window, calls.take(n)),
            ip,
            calls[0].at,
            if n == 0 {
                calls[0].at
            } else {
                calls[n - 1].at
            },
            calls_of(calls.take(n), ip),
            limit,
            window,
        ),
    decreases n,
{
    let start = calls[0].at;
    reveal(Seq::filter);
    if n == 0 {
        assert(calls.take(0) =~= Seq::<Call>::empty());
        if ledger.contains_key(ip) {
            let s = ledger[ip];
            lemma_filter_members(s, |t: u64| is_fresh(start, window, t));
            assert forall|i: int| 0 <= i < s.len() implies (#[trigger] s[i]) + window <= start by {
                assert(!is_fresh(start, window, s[i]));
            }
            lemma_filter_agree(s, |t: u64| t >= start, |t: u64| is_fresh(start, window, t));
        }
    } else {
        lemma_on_record_after(ledger, limit, window, calls, ip, n - 1);
        let done = calls.take(n - 1);
        let call = calls[n - 1];
        assert(calls.take(n).drop_last() =~= done);
        assert(calls.take(n).last() == call);
        let latest = if n == 1 {
            start
        } else {
            calls[n - 2].at
        };
        lemma_on_record_step(
            ledger_after_calls(ledger, limit, window, done),
            ip,
            start,
            latest,
            calls_of(done, ip),
            limit,
            window,
            call,
        );
    }
}

/// The limit holds within a window. Take any run of requests, of any
/// clients, whose times never go back and span less than one window, and a
/// client none of whose earlier requests still counts when the run begins.
/// A request of that client in the run is let through exactly when it is
/// among the client's first `limit` requests of the run: the request at the
/// limit passes, the one after it is turned away.
pub proof fn limit_holds_within_window(
    ledger: Map<u128, Seq<u64>>,
    limit: nat,
    window: u64,
    calls: Seq<Call>,
    ip: u128,
)
    requires
        calls.len() > 0,
        within_one_window(calls, window),
        calls.last().ip == ip,
        ledger.contains_key(ip) ==> fresh_part(ledger[ip], calls[0].at, window).len() == 0,
    ensures
        admits(
            ledger_after_calls(ledger, limit, window, calls.drop_last()),
            limit,
            window,
            ip,
            calls.last().at,
        ) <==> calls_of(calls, ip) <= limit,
{
    let n = calls.len() - 1;
    let done = calls.drop_last();
    assert(calls.take(n) =~= done);
    lemma_on_record_after(ledger, limit, window, calls, ip, n);
    let latest = if n == 0 {
        calls[0].at
    } else {
        calls[n - 1].at
    };
    lemma_on_record_step(
        ledger_after_calls(ledger, limit, window, done),
        ip,
        calls[0].at,
        latest,
        calls_of(done, ip),
        limit,
        window,
        calls.last(),
    );
    reveal(Seq::filter);
    assert(calls_of(calls, ip) == calls_of(done, ip) + 1);
}

} // verus!
