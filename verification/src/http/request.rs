use super::method::Method;
use crate::text::{
    ascii_lowered, chars_of, find_either, first_either, first_position,
    reads_ignoring_ascii_case, same_chars, same_text, slice_of, string_of, trim_bounds, trimmed,
};
use vstd::prelude::*;
use vstd::utf8::{decode_utf8, valid_utf8};

verus! {

/// The parameters of a query string as mathematical values: keys and
/// values, in the order in which the request gave them.
pub open spec fn pairs_view(pairs: Seq<(String, String)>) -> Seq<(Seq<char>, Seq<char>)> {
    Seq::new(pairs.len(), |i: int| (pairs[i].0@, pairs[i].1@))
}

/// The value of the first parameter named `key`.
pub open spec fn first_value(pairs: Seq<(Seq<char>, Seq<char>)>, key: Seq<char>) -> Option<
    Seq<char>,
>
    decreases pairs.len(),
{
    if pairs.len() == 0 {
        None
    } else if pairs[0].0 == key {
        Some(pairs[0].1)
    } else {
        first_value(pairs.drop_first(), key)
    }
}

/// The parameters that follow the `?` of a request target.
#[derive(Debug)]
pub struct QueryString {
    pairs: Vec<(String, String)>,
}

impl View for QueryString {
    type V = Seq<(Seq<char>, Seq<char>)>;

    closed spec fn view(&self) -> Seq<(Seq<char>, Seq<char>)> {
        pairs_view(self.pairs@)
    }
}

impl QueryString {
    pub fn new(pairs: Vec<(String, String)>) -> (r: Self)
        ensures
            r@ == pairs_view(pairs@),
    {
        QueryString { pairs }
    }

    /// The value of the first parameter named `key`.
    pub fn get(&self, key: &str) -> (r: Option<&str>)
        ensures
            match r {
                Some(v) => first_value(self@, key@) == Some(v@),
                None => first_value(self@, key@) is None,
            },
    {
        let mut i: usize = 0;
        assert(self@.skip(0) =~= self@);
        while i < self.pairs.len()
            invariant
                i <= self.pairs.len(),
                first_value(self@, key@) == first_value(self@.skip(i as int), key@),
            decreases self.pairs.len() - i,
        {
            proof {
                let rest = self@.skip(i as int);
                assert(rest[0] == self@[i as int]);
                assert(rest.drop_first() =~= self@.skip(i + 1));
            }
            if same_text(self.pairs[i].0.as_str(), key) {
                return Some(self.pairs[i].1.as_str());
            }
            i += 1;
        }
        None
    }
}

/// A request as the dispatcher reads it.
#[derive(Debug)]
pub struct Request {
    method: Method,
    path: String,
    query_string: Option<QueryString>,
    host: Option<String>,
    user_agent: Option<String>,
}

/// What a request holds, as mathematical values.
pub ghost struct RequestView {
    pub method: Method,
    pub path: Seq<char>,
    pub query: Option<Seq<(Seq<char>, Seq<char>)>>,
    pub host: Option<Seq<char>>,
    pub user_agent: Option<Seq<char>>,
}

/// The text of an optional string.
pub open spec fn text_of(s: Option<String>) -> Option<Seq<char>> {
    match s {
        Some(t) => Some(t@),
        None => None,
    }
}

impl View for Request {
    type V = RequestView;

    closed spec fn view(&self) -> RequestView {
        RequestView {
            method: self.method,
            path: self.path@,
            query: match self.query_string {
                Some(q) => Some(q@),
                None => None,
            },
            host: text_of(self.host),
            user_agent: text_of(self.user_agent),
        }
    }
}

impl Request {
    pub fn new(
        method: Method,
        path: String,
        query_string: Option<QueryString>,
        host: Option<String>,
        user_agent: Option<String>,
    ) -> (r: Self)
        ensures
            r@ == (RequestView {
                method,
                path: path@,
                query: match query_string {
                    Some(q) => Some(q@),
                    None => None,
                },
                host: text_of(host),
                user_agent: text_of(user_agent),
            }),
    {
        Request { method, path, query_string, host, user_agent }
    }

    pub fn method(&self) -> (m: Method)
        ensures
            m == self@.method,
    {
        self.method
    }

    /// The token of the method, as it stood on the request line.
    pub fn method_str(&self) -> (s: &'static str)
        ensures
            s@ == self@.method.name(),
    {
        self.method.as_str()
    }

    /// The path of the request target, without the query string.
    pub fn path(&self) -> (p: &str)
        ensures
            p@ == self@.path,
    {
        self.path.as_str()
    }

    pub fn query_string(&self) -> (q: Option<&QueryString>)
        ensures
            match q {
                Some(qs) => self@.query == Some(qs@),
                None => self@.query is None,
            },
    {
        self.query_string.as_ref()
    }

    /// The value of the `Host` header, if the request has one.
    pub fn host(&self) -> (h: Option<&str>)
        ensures
            match h {
                Some(t) => self@.host == Some(t@),
                None => self@.host is None,
            },
    {
        match &self.host {
            Some(h) => Some(h.as_str()),
            None => None,
        }
    }

    /// The value of the `User-Agent` header, if the request has one.
    pub fn user_agent(&self) -> (u: Option<&str>)
        ensures
            match u {
                Some(t) => self@.user_agent == Some(t@),
                None => self@.user_agent is None,
            },
    {
        match &self.user_agent {
            Some(u) => Some(u.as_str()),
            None => None,
        }
    }
}

/// Why a request could not be read.
#[derive(Copy, Clone, Debug, PartialEq, Eq, Structural)]
pub enum ParseError {
    /// The request line has fewer than three words.
    InvalidRequest,
    /// The bytes are not UTF-8.
    InvalidEncoding,
    /// The protocol is not `HTTP/1.1`.
    InvalidProtocol,
    /// The first word names no method.
    InvalidMethod,
}

impl ParseError {
    pub open spec fn text(self) -> Seq<char> {
        match self {
            ParseError::InvalidRequest => "Invalid Request"@,
            ParseError::InvalidEncoding => "Invalid Encoding"@,
            ParseError::InvalidProtocol => "Invalid Protocol"@,
            ParseError::InvalidMethod => "Invalid Method"@,
        }
    }

    /// The error in words, for the server's own log.
    pub fn message(&self) -> (r: &'static str)
        ensures
            r@ == self.text(),
    {
        match self {
            ParseError::InvalidRequest => "Invalid Request",
            ParseError::InvalidEncoding => "Invalid Encoding",
            ParseError::InvalidProtocol => "Invalid Protocol",
            ParseError::InvalidMethod => "Invalid Method",
        }
    }
}

/// The word that `s` begins with and what follows it. A word ends at the
/// first space or carriage return, which belongs to neither part; a text
/// without either has no word.
pub open spec fn next_word(s: Seq<char>) -> Option<(Seq<char>, Seq<char>)> {
    let n = first_either(s, ' ', '\r');
    if n < s.len() {
        Some((s.take(n), s.skip(n + 1)))
    } else {
        None
    }
}

/// Key and value of one parameter: what stands before and behind its first
/// `=`. A parameter without `=` is a key with an empty value.
pub open spec fn split_pair(piece: Seq<char>) -> (Seq<char>, Seq<char>) {
    let k = first_position(piece, '=');
    if k < piece.len() {
        (piece.take(k), piece.skip(k + 1))
    } else {
        (piece, Seq::empty())
    }
}

/// The parameters of a query string: the pieces between its `&`, each
/// split into key and value.
pub open spec fn query_pairs(query: Seq<char>) -> Seq<(Seq<char>, Seq<char>)>
    decreases query.len(),
{
    let n = first_position(query, '&');
    if 0 <= n < query.len() {
        seq![split_pair(query.take(n))] + query_pairs(query.skip(n + 1))
    } else {
        seq![split_pair(query)]
    }
}

/// The path of a request target: what stands before its first `?`.
pub open spec fn target_path(target: Seq<char>) -> Seq<char> {
    target.take(first_position(target, '?'))
}

/// The parameters of a request target: those of what follows its first
/// `?`, if it has one.
pub open spec fn target_query(target: Seq<char>) -> Option<Seq<(Seq<char>, Seq<char>)>> {
    let n = first_position(target, '?');
    if n < target.len() {
        Some(query_pairs(target.skip(n + 1)))
    } else {
        None
    }
}

/// The first line of `text`, without the line feed and the carriage return
/// that end it.
pub open spec fn first_line(text: Seq<char>) -> Seq<char> {
    let raw = text.take(first_position(text, '\n'));
    if raw.len() > 0 && raw.last() == '\r' {
        raw.drop_last()
    } else {
        raw
    }
}

/// What follows the first line of `text`; empty where the text has no line
/// feed.
pub open spec fn after_first_line(text: Seq<char>) -> Seq<char> {
    let n = first_position(text, '\n');
    if 0 <= n < text.len() {
        text.skip(n + 1)
    } else {
        Seq::empty()
    }
}

/// The value of the first header named `name`, a name in lowercase, among
/// the header lines `text`. Header names are read without regard to ASCII
/// case, values without the blanks around them. The headers end at the
/// first empty line.
pub open spec fn header_value(text: Seq<char>, name: Seq<char>) -> Option<Seq<char>>
    decreases text.len(),
{
    let n = first_position(text, '\n');
    let line = first_line(text);
    let colon = first_position(line, ':');
    if line.len() == 0 {
        None
    } else if colon < line.len() && ascii_lowered(line.take(colon)) == name {
        Some(trimmed(line.skip(colon + 1)))
    } else if 0 <= n < text.len() {
        header_value(text.skip(n + 1), name)
    } else {
        None
    }
}

/// The request that a text holds: method, target and protocol on the first
/// line, each ended by a space or a carriage return, then the header
/// lines. The protocol is checked before the method.
pub open spec fn parsed_text(text: Seq<char>) -> Result<RequestView, ParseError> {
    match next_word(text) {
        None => Err(ParseError::InvalidRequest),
        Some((method, rest)) => match next_word(rest) {
            None => Err(ParseError::InvalidRequest),
            Some((target, rest)) => match next_word(rest) {
                None => Err(ParseError::InvalidRequest),
                Some((protocol, rest)) => if protocol != "HTTP/1.1"@ {
                    Err(ParseError::InvalidProtocol)
                } else {
                    match Method::named(method) {
                        None => Err(ParseError::InvalidMethod),
                        Some(m) => Ok(
                            RequestView {
                                method: m,
                                path: target_path(target),
                                query: target_query(target),
                                host: header_value(after_first_line(rest), "host"@),
                                user_agent: header_value(after_first_line(rest), "user-agent"@),
                            },
                        ),
                    }
                },
            },
        },
    }
}

/// The request that a buffer holds.
pub open spec fn parsed(bytes: Seq<u8>) -> Result<RequestView, ParseError> {
    if valid_utf8(bytes) {
        parsed_text(decode_utf8(bytes))
    } else {
        Err(ParseError::InvalidEncoding)
    }
}

/// `std::str::from_utf8`: the text that the bytes encode where they are
/// valid UTF-8, and `None` where they are not.
#[verifier::external_body]
fn utf8_text(bytes: &[u8]) -> (r: Option<&str>)
    ensures
        match r {
            Some(text) => valid_utf8(bytes@) && text@ == decode_utf8(bytes@),
            None => !valid_utf8(bytes@),
        },
{
    std::str::from_utf8(bytes).ok()
}

/// Reads the parameters of a query string.
pub fn parse_query(query: &Vec<char>) -> (r: QueryString)
    ensures
        r@ == query_pairs(query@),
{
    let mut pairs: Vec<(String, String)> = Vec::new();
    let mut pos: usize = 0;
    assert(query@.skip(0) =~= query@);
    loop
        invariant
            pos <= query.len(),
            query_pairs(query@) == pairs_view(pairs@) + query_pairs(query@.skip(pos as int)),
        decreases query.len() - pos,
    {
        let end = find_either(query, pos, '&', '&');
        let piece = slice_of(query, pos, end);
        let eq = find_either(&piece, 0, '=', '=');
        let ghost rest = query@.skip(pos as int);
        let ghost done = pairs_view(pairs@);
        proof {
            assert(piece@.skip(0) =~= piece@);
            assert(rest.take(end - pos) =~= piece@);
            if end >= query.len() {
                assert(piece@ =~= rest);
            }
        }
        let key = string_of(&piece, 0, eq);
        let value = if eq < piece.len() {
            string_of(&piece, eq + 1, piece.len())
        } else {
            String::new()
        };
        proof {
            assert(key@ == split_pair(piece@).0);
            assert(value@ =~= split_pair(piece@).1);
        }
        pairs.push((key, value));
        proof {
            assert(pairs_view(pairs@) =~= done.push(split_pair(piece@)));
        }
        if end >= query.len() {
            proof {
                assert(done + seq![split_pair(piece@)] =~= done.push(split_pair(piece@)));
            }
            return QueryString::new(pairs);
        }
        proof {
            assert(rest.skip(end - pos + 1) =~= query@.skip(end + 1));
            assert(done + (seq![split_pair(piece@)] + query_pairs(query@.skip(end + 1)))
                =~= done.push(split_pair(piece@)) + query_pairs(query@.skip(end + 1)));
        }
        pos = end + 1;
    }
}

/// Finds the value of the first header named `name` among the header lines
/// `text`.
pub fn find_header(text: &Vec<char>, name: &Vec<char>) -> (r: Option<String>)
    ensures
        text_of(r) == header_value(text@, name@),
{
    let mut pos: usize = 0;
    assert(text@.skip(0) =~= text@);
    loop
        invariant
            pos <= text.len(),
            header_value(text@, name@) == header_value(text@.skip(pos as int), name@),
        decreases text.len() - pos,
    {
        let end = find_either(text, pos, '\n', '\n');
        let ghost rest = text@.skip(pos as int);
        let stop: usize = if end > pos && text[end - 1] == '\r' {
            end - 1
        } else {
            end
        };
        let line = slice_of(text, pos, stop);
        proof {
            let raw = rest.take(end - pos);
            assert(raw =~= text@.subrange(pos as int, end as int));
            if raw.len() > 0 {
                assert(raw.last() == text@[end - 1]);
            }
            assert(line@ =~= first_line(rest));
            assert(line@.skip(0) =~= line@);
        }
        if line.len() == 0 {
            return None;
        }
        let colon = find_either(&line, 0, ':', ':');
        if colon < line.len() && reads_ignoring_ascii_case(&line, 0, colon, name) {
            let (a, b) = trim_bounds(&line, colon + 1, line.len());
            proof {
                assert(line@.subrange(0, colon as int) =~= line@.take(colon as int));
                assert(line@.subrange(colon + 1, line.len() as int) =~= line@.skip(colon + 1));
            }
            return Some(string_of(&line, a, b));
        }
        proof {
            if colon < line.len() {
                assert(line@.subrange(0, colon as int) =~= line@.take(colon as int));
            }
        }
        if end >= text.len() {
            return None;
        }
        proof {
            assert(rest.skip(end - pos + 1) =~= text@.skip(end + 1));
        }
        pos = end + 1;
    }
}

/// Finds the end of the word that begins at the offset `from`.
fn word_end(t: &Vec<char>, from: usize) -> (r: Option<usize>)
    requires
        from <= t.len(),
    ensures
        match r {
            Some(end) => from <= end < t.len() && next_word(t@.skip(from as int)) == Some(
                (t@.subrange(from as int, end as int), t@.skip(end + 1)),
            ),
            None => next_word(t@.skip(from as int)) is None,
        },
{
    let end = find_either(t, from, ' ', '\r');
    if end >= t.len() {
        None
    } else {
        proof {
            let rest = t@.skip(from as int);
            assert(rest.take(end - from) =~= t@.subrange(from as int, end as int));
            assert(rest.skip(end - from + 1) =~= t@.skip(end + 1));
        }
        Some(end)
    }
}

/// Splits a request target into its path and its parameters.
fn split_target(target: &Vec<char>) -> (r: (String, Option<QueryString>))
    ensures
        r.0@ == target_path(target@),
        match r.1 {
            Some(q) => target_query(target@) == Some(q@),
            None => target_query(target@) is None,
        },
{
    let q = find_either(target, 0, '?', '?');
    assert(target@.skip(0) =~= target@);
    let path = string_of(target, 0, q);
    let query = if q < target.len() {
        let query_text = slice_of(target, q + 1, target.len());
        assert(query_text@ =~= target@.skip(q + 1));
        Some(parse_query(&query_text))
    } else {
        None
    };
    (path, query)
}

/// The header lines that follow what is left of the request line at the
/// offset `from`.
fn header_lines(t: &Vec<char>, from: usize) -> (r: Vec<char>)
    requires
        from <= t.len(),
    ensures
        r@ == after_first_line(t@.skip(from as int)),
{
    let nl = find_either(t, from, '\n', '\n');
    if nl < t.len() {
        let r = slice_of(t, nl + 1, t.len());
        assert(r@ =~= t@.skip(from as int).skip(nl - from + 1));
        r
    } else {
        Vec::new()
    }
}

impl Request {
    /// Reads a request from the bytes of a connection's first read.
    pub fn parse(buf: &[u8]) -> (r: Result<Request, ParseError>)
        ensures
            match r {
                Ok(request) => parsed(buf@) == Ok::<RequestView, ParseError>(request@),
                Err(e) => parsed(buf@) == Err::<RequestView, ParseError>(e),
            },
    {
        let text = match utf8_text(buf) {
            Some(text) => text,
            None => {
                return Err(ParseError::InvalidEncoding);
            },
        };
        let t = chars_of(text);
        assert(t@.skip(0) =~= t@);
        let a = match word_end(&t, 0) {
            Some(a) => a,
            None => {
                return Err(ParseError::InvalidRequest);
            },
        };
        let b = match word_end(&t, a + 1) {
            Some(b) => b,
            None => {
                return Err(ParseError::InvalidRequest);
            },
        };
        let c = match word_end(&t, b + 1) {
            Some(c) => c,
            None => {
                return Err(ParseError::InvalidRequest);
            },
        };
        let protocol = slice_of(&t, b + 1, c);
        if !same_chars(&protocol, &chars_of("HTTP/1.1")) {
            return Err(ParseError::InvalidProtocol);
        }
        let method = match Method::from_token(&slice_of(&t, 0, a)) {
            Some(m) => m,
            None => {
                return Err(ParseError::InvalidMethod);
            },
        };
        let (path, query) = split_target(&slice_of(&t, a + 1, b));
        let headers = header_lines(&t, c + 1);
        let host = find_header(&headers, &chars_of("host"));
        let user_agent = find_header(&headers, &chars_of("user-agent"));
        Ok(Request::new(method, path, query, host, user_agent))
    }
}

} // verus!
