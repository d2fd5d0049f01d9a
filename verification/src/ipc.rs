//! The control protocol between the command-line client and the daemon:
//! one JSON-encoded message per line, one request/response exchange per
//! connection.
//!
//! The codec here is the whole wire format: requests are the strings
//! `"Ping"` and `"Stop"`, responses are `"Pong"`, `"Ok"` or
//! `{"Error":"message"}`.  The socket plumbing around it performs the
//! verified encode, decode and dispatch steps.

use vstd::prelude::*;

verus! {

use crate::escape::escape_seq;
use crate::escape::lemma_escape_clean;
use crate::escape::lemma_parse_escaped;
use crate::escape::parse_string_body;
use crate::escape::quote;
use crate::escape::unquote;
use crate::strutil::concat3;
use crate::strutil::from_chars;
use crate::strutil::to_chars;
use vstd::string::StringExecFns;

/// A request sent from a client to the daemon.
#[derive(Debug, Clone, Copy, PartialEq, Eq, Structural)]
pub enum Request {
    /// Check that the service is alive.
    Ping,
    /// Ask the daemon to shut down gracefully.
    Stop,
}

/// A response sent from the daemon back to a client.
#[derive(Debug, Clone, PartialEq, Eq)]
pub enum Response {
    /// Acknowledgment of `Ping`.
    Pong,
    /// Acknowledgment of success; `Ok` on the wire.
    Okay,
    /// An error while processing the request.
    Error(String),
}

/// The abstract value of a `Response`.
pub enum VResponse {
    Pong,
    Okay,
    Error(Seq<char>),
}

impl View for Response {
    type V = VResponse;

    open spec fn view(&self) -> VResponse {
        match self {
            Response::Pong => VResponse::Pong,
            Response::Okay => VResponse::Okay,
            Response::Error(m) => VResponse::Error(m@),
        }
    }
}

/// The wire form of a request.
pub open spec fn encode_request_seq(r: Request) -> Seq<char> {
    match r {
        Request::Ping => "\"Ping\""@,
        Request::Stop => "\"Stop\""@,
    }
}

/// The wire form of an error response carrying `msg`.
pub open spec fn encode_error_seq(msg: Seq<char>) -> Seq<char> {
    "{\"Error\":\""@ + escape_seq(msg) + "\"}"@
}

/// The wire form of a response.
pub open spec fn encode_response_seq(r: VResponse) -> Seq<char> {
    match r {
        VResponse::Pong => "\"Pong\""@,
        VResponse::Okay => "\"Ok\""@,
        VResponse::Error(m) => encode_error_seq(m),
    }
}

/// True for the blank characters tolerated around a message.
pub open spec fn is_ws(c: char) -> bool {
    c == ' ' || c == '\t' || c == '\r' || c == '\n'
}

/// `s` without leading blanks.
pub open spec fn trim_front(s: Seq<char>) -> Seq<char>
    decreases s.len(),
{
    if s.len() > 0 && is_ws(s[0]) {
        trim_front(s.drop_first())
    } else {
        s
    }
}

/// `s` without trailing blanks.
pub open spec fn trim_back(s: Seq<char>) -> Seq<char>
    decreases s.len(),
{
    if s.len() > 0 && is_ws(s.last()) {
        trim_back(s.drop_last())
    } else {
        s
    }
}

/// `s` without leading and trailing blanks.
pub open spec fn trim(s: Seq<char>) -> Seq<char> {
    trim_back(trim_front(s))
}

proof fn lemma_trim_front_skip(s: Seq<char>, i: int)
    requires
        0 <= i <= s.len(),
        forall|j: int| 0 <= j < i ==> is_ws(#[trigger] s[j]),
        i == s.len() || !is_ws(s[i]),
    ensures
        trim_front(s) == s.skip(i),
    decreases i,
{
    if i == 0 {
        assert(s.skip(0) =~= s);
    } else {
        assert(is_ws(s[0]));
        assert(s.drop_first() =~= s.skip(1));
        lemma_trim_front_skip(s.skip(1), i - 1);
        assert(s.skip(1).skip(i - 1) =~= s.skip(i));
    }
}

proof fn lemma_trim_back_take(s: Seq<char>, e: int)
    requires
        0 <= e <= s.len(),
        forall|j: int| e <= j < s.len() ==> is_ws(#[trigger] s[j]),
        e == 0 || !is_ws(s[e - 1]),
    ensures
        trim_back(s) == s.take(e),
    decreases s.len() - e,
{
    if e == s.len() {
        assert(s.take(e) =~= s);
    } else {
        assert(is_ws(s.last()));
        assert(s.drop_last() =~= s.take(s.len() - 1));
        lemma_trim_back_take(s.take(s.len() - 1), e);
        assert(s.take(s.len() - 1).take(e) =~= s.take(e));
    }
}

/// A sequence with non-blank ends is already trimmed.
proof fn lemma_trim_noop(s: Seq<char>)
    requires
        s.len() > 0,
        !is_ws(s[0]),
        !is_ws(s.last()),
    ensures
        trim(s) == s,
{
    lemma_trim_front_skip(s, 0);
    assert(s.skip(0) =~= s);
    lemma_trim_back_take(s, s.len() as int);
    assert(s.take(s.len() as int) =~= s);
}

/// The request on a line, when the line holds one.
pub open spec fn parse_request_seq(s: Seq<char>) -> Option<Request> {
    let t = trim(s);
    if t == "\"Ping\""@ {
        Some(Request::Ping)
    } else if t == "\"Stop\""@ {
        Some(Request::Stop)
    } else {
        None
    }
}

/// The response on a line, when the line holds one.
pub open spec fn parse_response_seq(s: Seq<char>) -> Option<VResponse> {
    let t = trim(s);
    if t == "\"Pong\""@ {
        Some(VResponse::Pong)
    } else if t == "\"Ok\""@ {
        Some(VResponse::Okay)
    } else if t.len() >= 12 && t.subrange(0, 9) == "{\"Error\":"@ && t[9] == '"' {
        match parse_string_body(t.skip(10)) {
            Some(p) => if 10 + p.1 == t.len() - 1 && t.last() == '}' {
                Some(VResponse::Error(p.0))
            } else {
                None
            },
            None => None,
        }
    } else {
        None
    }
}

/// The characters of `s` with leading and trailing blanks dropped.
pub fn trim_to_chars(s: &String) -> (r: Vec<char>)
    ensures
        r@ == trim(s@),
{
    let chars = to_chars(s.as_str());
    let n = chars.len();
    let mut start: usize = 0;
    while start < n && (chars[start] == ' ' || chars[start] == '\t' || chars[start] == '\r'
        || chars[start] == '\n')
        invariant
            start <= n,
            n == chars@.len(),
            chars@ == s@,
            forall|j: int| 0 <= j < start ==> is_ws(#[trigger] chars@[j]),
        decreases n - start,
    {
        start = start + 1;
    }
    let mut end: usize = n;
    while end > start && (chars[end - 1] == ' ' || chars[end - 1] == '\t' || chars[end - 1] == '\r'
        || chars[end - 1] == '\n')
        invariant
            start <= end <= n,
            n == chars@.len(),
            chars@ == s@,
            forall|j: int| 0 <= j < start ==> is_ws(#[trigger] chars@[j]),
            forall|j: int| end <= j < n ==> is_ws(#[trigger] chars@[j]),
        decreases end,
    {
        end = end - 1;
    }
    let mut out: Vec<char> = Vec::new();
    let mut i: usize = start;
    while i < end
        invariant
            start <= i <= end <= n,
            n == chars@.len(),
            out@ == chars@.subrange(start as int, i as int),
        decreases end - i,
    {
        out.push(chars[i]);
        i = i + 1;
        proof {
            assert(out@ =~= chars@.subrange(start as int, i as int));
        }
    }
    proof {
        lemma_trim_front_skip(s@, start as int);
        lemma_trim_back_take(s@.skip(start as int), (end - start) as int);
        assert(s@.skip(start as int).take((end - start) as int) =~= s@.subrange(
            start as int,
            end as int,
        ));
        assert(out@ =~= s@.subrange(start as int, end as int));
    }
    out
}

/// The wire form of a request.
pub fn encode_request(r: &Request) -> (out: String)
    ensures
        out@ == encode_request_seq(*r),
{
    match r {
        Request::Ping => String::from_str("\"Ping\""),
        Request::Stop => String::from_str("\"Stop\""),
    }
}

/// The wire form of a response.  It never holds a newline, so one response
/// always fits on one line of the connection.
pub fn encode_response(r: &Response) -> (out: String)
    ensures
        out@ == encode_response_seq(r@),
        forall|i: int| 0 <= i < out@.len() ==> out@[i] != '\n',
{
    let out = match r {
        Response::Pong => String::from_str("\"Pong\""),
        Response::Okay => String::from_str("\"Ok\""),
        Response::Error(m) => {
            let q = quote(m);
            let res = concat3("{\"Error\":", q.as_str(), "}");
            proof {
                reveal_strlit("{\"Error\":");
                reveal_strlit("{\"Error\":\"");
                reveal_strlit("\"}");
                reveal_strlit("}");
                assert(res@ =~= encode_error_seq(m@));
            }
            res
        },
    };
    proof {
        reveal_strlit("\"Pong\"");
        reveal_strlit("\"Ok\"");
        reveal_strlit("{\"Error\":\"");
        reveal_strlit("\"}");
        match r {
            Response::Error(m) => {
                lemma_escape_clean(m@);
            },
            _ => {},
        }
    }
    out
}

/// The request on a line, when it holds one.
pub fn parse_request(line: &String) -> (r: Option<Request>)
    ensures
        r == parse_request_seq(line@),
{
    let t = from_chars(&trim_to_chars(line));
    if t == String::from_str("\"Ping\"") {
        Some(Request::Ping)
    } else if t == String::from_str("\"Stop\"") {
        Some(Request::Stop)
    } else {
        None
    }
}

/// The response on a line, when it holds one.
pub fn parse_response(line: &String) -> (r: Option<Response>)
    ensures
        r is Some <==> parse_response_seq(line@) is Some,
        r matches Some(resp) ==> parse_response_seq(line@) == Some(resp@),
{
    let t = trim_to_chars(line);
    let ts = from_chars(&t);
    if ts == String::from_str("\"Pong\"") {
        return Some(Response::Pong);
    }
    if ts == String::from_str("\"Ok\"") {
        return Some(Response::Okay);
    }
    if t.len() < 12 {
        return None;
    }
    let head = to_chars("{\"Error\":");
    proof {
        reveal_strlit("{\"Error\":");
    }
    let mut i: usize = 0;
    while i < 9
        invariant
            i <= 9,
            head@ == "{\"Error\":"@,
            head@.len() == 9,
            t@.len() >= 12,
            t@ == trim(line@),
            t@ != "\"Pong\""@,
            t@ != "\"Ok\""@,
            forall|j: int| 0 <= j < i ==> t@[j] == head@[j],
        decreases 9 - i,
    {
        proof {
            reveal_strlit("{\"Error\":");
        }
        if t[i] != head[i] {
            proof {
                assert(t@.subrange(0, 9)[i as int] == t@[i as int]);
                assert(t@.subrange(0, 9) != "{\"Error\":"@);
                assert(parse_response_seq(line@) is None);
            }
            return None;
        }
        i = i + 1;
    }
    proof {
        assert(t@.subrange(0, 9) =~= "{\"Error\":"@);
    }
    match unquote(&t, 9) {
        Some((msg, n)) => {
            if 9 + n == t.len() - 1 && t[t.len() - 1] == '}' {
                proof {
                    assert(t@.last() == '}');
                }
                Some(Response::Error(msg))
            } else {
                None
            }
        },
        None => None,
    }
}

/// Every request round-trips through its wire form.
pub proof fn lemma_request_round_trip(r: Request)
    ensures
        parse_request_seq(encode_request_seq(r)) == Some(r),
{
    reveal_strlit("\"Ping\"");
    reveal_strlit("\"Stop\"");
    let e = encode_request_seq(r);
    lemma_trim_noop(e);
    assert("\"Ping\""@[1] == 'P' && "\"Stop\""@[1] == 'S');
    assert("\"Ping\""@ != "\"Stop\""@);
}

/// Every response round-trips through its wire form.
pub proof fn lemma_response_round_trip(v: VResponse)
    ensures
        parse_response_seq(encode_response_seq(v)) == Some(v),
{
    reveal_strlit("\"Pong\"");
    reveal_strlit("\"Ok\"");
    reveal_strlit("{\"Error\":\"");
    reveal_strlit("{\"Error\":");
    reveal_strlit("\"}");
    match v {
        VResponse::Pong => {
            lemma_trim_noop(encode_response_seq(v));
        },
        VResponse::Okay => {
            lemma_trim_noop(encode_response_seq(v));
        },
        VResponse::Error(m) => {
            let e = encode_error_seq(m);
            assert(e[0] == '{');
            assert(e.last() == '}');
            lemma_trim_noop(e);
            assert(e.subrange(0, 9) =~= "{\"Error\":"@);
            assert(e[9] == '"');
            lemma_escape_clean(m);
            assert(e != "\"Pong\""@ && e != "\"Ok\""@) by {
                assert(e[0] == '{');
                assert("\"Pong\""@[0] == '"');
                assert("\"Ok\""@[0] == '"');
            }
            assert(e.skip(10) =~= escape_seq(m) + seq!['"'] + seq!['}']);
            lemma_parse_escaped(m, seq!['}']);
            assert(parse_string_body(e.skip(10)) == Some((m, escape_seq(m).len() as int + 1)));
        },
    }
}

/// What the daemon answers to one request, and whether it must then shut
/// down: every `Ping` yields `Pong`; `Stop` is acknowledged with `Ok` and
/// sets the shutdown flag.
pub fn handle_request(req: &Request) -> (r: (Response, bool))
    ensures
        *req == Request::Ping ==> r.0 == Response::Pong && !r.1,
        *req == Request::Stop ==> r.0 == Response::Okay && r.1,
{
    match req {
        Request::Ping => (Response::Pong, false),
        Request::Stop => (Response::Okay, true),
    }
}

/// One connection of the server: decodes the line, dispatches a valid
/// request, and answers a malformed line with an error response instead of
/// dropping the connection.  Returns the reply line (newline excluded) and
/// whether the server must shut down afterwards.
pub fn server_handle_line(line: &String) -> (r: (String, bool))
    ensures
        parse_request_seq(line@) == Some(Request::Ping) ==> r.0@ == encode_response_seq(
            VResponse::Pong,
        ) && !r.1,
        parse_request_seq(line@) == Some(Request::Stop) ==> r.0@ == encode_response_seq(
            VResponse::Okay,
        ) && r.1,
        parse_request_seq(line@) is None ==> r.0@ == encode_error_seq("Invalid request format"@)
            && !r.1,
        forall|i: int| 0 <= i < r.0@.len() ==> r.0@[i] != '\n',
{
    match parse_request(line) {
        Some(req) => {
            let (resp, stop) = handle_request(&req);
            (encode_response(&resp), stop)
        },
        None => {
            let resp = Response::Error(String::from_str("Invalid request format"));
            (encode_response(&resp), false)
        },
    }
}

/// Whether the accept loop must exit: exactly when the shared shutdown flag
/// has been observed set.
pub fn server_should_exit(shutdown_flag: bool) -> (r: bool)
    ensures
        r == shutdown_flag,
{
    shutdown_flag
}

} // verus!
