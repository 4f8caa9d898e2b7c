use vstd::prelude::*;
use vstd::string::*;
use crate::headers::{header_pairs, HeaderList};
use crate::router::lower_of;

verus! {

/// Headers that belong to one transport hop and are never forwarded.
pub open spec fn hop_by_hop(lowered: Seq<char>) -> bool {
    lowered == "connection"@ || lowered == "keep-alive"@ || lowered == "proxy-authenticate"@
        || lowered == "proxy-authorization"@ || lowered == "te"@ || lowered == "trailers"@
        || lowered == "transfer-encoding"@ || lowered == "upgrade"@
}

/// Whether a header name is hop-by-hop, compared in lower case.
pub fn is_hop_by_hop_header(name: &str) -> (r: bool)
    ensures
        r == hop_by_hop(lower_of(name@)),
        crate::router::all_ascii(name@) ==> r == hop_by_hop(name@.map_values(|c: char| crate::headers::lower_char(c))),
{
    let l = crate::router::to_lower(name);
    let t = l.as_str();
    let s = String::from_str(t);
    s == String::from_str("connection") || s == String::from_str("keep-alive")
        || s == String::from_str("proxy-authenticate") || s == String::from_str("proxy-authorization")
        || s == String::from_str("te") || s == String::from_str("trailers")
        || s == String::from_str("transfer-encoding") || s == String::from_str("upgrade")
}

/// Paths that bypass authentication.
pub open spec fn health_path(p: Seq<char>) -> bool {
    p == "/health"@ || p == "/healthz"@ || p == "/ready"@ || p == "/readiness"@ || p == "/ping"@
}

pub fn is_health_check_path(path: &str) -> (r: bool)
    ensures
        r == health_path(path@),
{
    let s = String::from_str(path);
    s == String::from_str("/health") || s == String::from_str("/healthz") || s == String::from_str("/ready")
        || s == String::from_str("/readiness") || s == String::from_str("/ping")
}

/// Whether a request must authenticate: its route requires it and the path is not a
/// health-check path.
pub fn auth_required(auth: &Option<crate::config::RouteAuthConfig>, path: &str) -> (r: bool)
    ensures
        r == (auth matches Some(a) && a.required && !health_path(path@)),
{
    match auth {
        Some(a) => a.required && !is_health_check_path(path),
        None => false,
    }
}

/// The headers that are forwarded: all but the hop-by-hop ones, in order.
pub open spec fn forwarded(h: Seq<(Seq<char>, Seq<char>)>) -> Seq<(Seq<char>, Seq<char>)> {
    h.filter(|p: (Seq<char>, Seq<char>)| !hop_by_hop(lower_of(p.0)))
}

/// Copies the headers that may cross the proxy, in either direction.
pub fn forwardable_headers(headers: &HeaderList) -> (r: HeaderList)
    ensures
        header_pairs(r@) == forwarded(header_pairs(headers@)),
{
    let ghost hp = header_pairs(headers@);
    let mut out: HeaderList = Vec::new();
    let mut i: usize = 0;
    while i < headers.len()
        invariant
            i <= headers@.len(),
            hp == header_pairs(headers@),
            header_pairs(out@) == forwarded(hp.take(i as int)),
        decreases headers@.len() - i,
    {
        proof {
            assert(hp.take(i as int + 1) =~= hp.take(i as int).push(hp[i as int]));
            hp.take(i as int).lemma_filter_push(hp[i as int], |p: (Seq<char>, Seq<char>)| !hop_by_hop(lower_of(p.0)));
        }
        if !is_hop_by_hop_header(headers[i].0.as_str()) {
            let p = (headers[i].0.clone(), headers[i].1.clone());
            let ghost before = out@;
            out.push(p);
            assert(header_pairs(out@) =~= header_pairs(before).push(hp[i as int]));
        }
        i = i + 1;
    }
    assert(hp.take(i as int) =~= hp);
    out
}

/// How an upstream call ended.
#[derive(PartialEq, Eq, Structural, Clone, Copy, Debug)]
pub enum UpstreamOutcome {
    /// The upstream answered with this status.
    Response(u16),
    /// No answer within the request timeout.
    Timeout,
    /// The connection failed.
    Connection,
}

/// What the circuit breaker is told about an upstream call.
#[derive(PartialEq, Eq, Structural, Clone, Copy, Debug)]
pub enum BreakerReport {
    Success,
    Failure,
    Timeout,
}

pub open spec fn server_error(status: u16) -> bool {
    500 <= status && status <= 599
}

/// A 5xx answer or a connection failure is a failure, a timeout is a timeout, any
/// other answer a success.
pub open spec fn report_for(o: UpstreamOutcome) -> BreakerReport {
    match o {
        UpstreamOutcome::Response(s) => if server_error(s) { BreakerReport::Failure } else { BreakerReport::Success },
        UpstreamOutcome::Timeout => BreakerReport::Timeout,
        UpstreamOutcome::Connection => BreakerReport::Failure,
    }
}

pub fn breaker_report(outcome: UpstreamOutcome) -> (r: BreakerReport)
    ensures
        r == report_for(outcome),
{
    match outcome {
        UpstreamOutcome::Response(s) => if 500 <= s && s <= 599 { BreakerReport::Failure } else { BreakerReport::Success },
        UpstreamOutcome::Timeout => BreakerReport::Timeout,
        UpstreamOutcome::Connection => BreakerReport::Failure,
    }
}

/// How an upstream call that produced no answer ended: a timeout error is a timeout,
/// any other error a failed connection.
pub fn failure_outcome(e: &crate::error::GatewayError) -> (r: UpstreamOutcome)
    ensures
        r == if *e is Timeout { UpstreamOutcome::Timeout } else { UpstreamOutcome::Connection },
{
    match e {
        crate::error::GatewayError::Timeout(_) => UpstreamOutcome::Timeout,
        _ => UpstreamOutcome::Connection,
    }
}

/// Whether an upstream call counts as a success for passive health checks: an
/// answer below 500.
pub fn passive_success(outcome: UpstreamOutcome) -> (r: bool)
    ensures
        r == (outcome matches UpstreamOutcome::Response(s) && !server_error(s)),
{
    match outcome {
        UpstreamOutcome::Response(s) => !(500 <= s && s <= 599),
        _ => false,
    }
}

/// The request id a request carries: the one the client sent, else a fresh one.
pub fn request_id(sent: Option<&str>, fresh: String) -> (r: String)
    ensures
        r@ == match sent {
            Some(s) => s@,
            None => fresh@,
        },
{
    match sent {
        Some(s) => String::from_str(s),
        None => fresh,
    }
}

/// The request-id extension carried with a request.
pub struct RequestId(pub String);

/// The id of a request, when one was attached.
pub fn get_request_id(id: Option<&RequestId>) -> (r: Option<String>)
    ensures
        match id {
            Some(i) => r matches Some(s) && s@ == i.0@,
            None => r is None,
        },
{
    match id {
        Some(i) => Some(i.0.clone()),
        None => None,
    }
}

pub open spec fn hex_char(d: nat) -> char {
    if d < 10 { ((d + 48) as u8) as char } else { ((d - 10 + 97) as u8) as char }
}

/// How a character appears inside a JSON string.
pub open spec fn json_char(c: char) -> Seq<char> {
    if c == '"' {
        seq!['\\', '"']
    } else if c == '\\' {
        seq!['\\', '\\']
    } else if c == '\n' {
        seq!['\\', 'n']
    } else if c == '\r' {
        seq!['\\', 'r']
    } else if c == '\t' {
        seq!['\\', 't']
    } else if c == '\u{8}' {
        seq!['\\', 'b']
    } else if c == '\u{c}' {
        seq!['\\', 'f']
    } else if (c as u32) < 32 {
        seq!['\\', 'u', '0', '0', hex_char((c as u32) as nat / 16), hex_char((c as u32) as nat % 16)]
    } else {
        seq![c]
    }
}

/// The JSON string literal body of a text.
pub open spec fn json_text(s: Seq<char>) -> Seq<char>
    decreases s.len(),
{
    if s.len() == 0 {
        s
    } else {
        json_text(s.drop_last()) + json_char(s.last())
    }
}

fn hex_text(d: u32) -> (r: &'static str)
    requires
        d < 16,
    ensures
        r@ == seq![hex_char(d as nat)],
{
    proof {
        reveal_strlit("0");
        reveal_strlit("1");
        reveal_strlit("2");
        reveal_strlit("3");
        reveal_strlit("4");
        reveal_strlit("5");
        reveal_strlit("6");
        reveal_strlit("7");
        reveal_strlit("8");
        reveal_strlit("9");
        reveal_strlit("a");
        reveal_strlit("b");
        reveal_strlit("c");
        reveal_strlit("d");
        reveal_strlit("e");
        reveal_strlit("f");
    }
    match d {
        0 => "0",
        1 => "1",
        2 => "2",
        3 => "3",
        4 => "4",
        5 => "5",
        6 => "6",
        7 => "7",
        8 => "8",
        9 => "9",
        10 => "a",
        11 => "b",
        12 => "c",
        13 => "d",
        14 => "e",
        _ => "f",
    }
}

fn json_piece(c: char, piece: &str) -> (r: String)
    requires
        piece@ == seq![c],
    ensures
        r@ == json_char(c),
{
    proof {
        reveal_strlit("\\\"");
        reveal_strlit("\\\\");
        reveal_strlit("\\n");
        reveal_strlit("\\r");
        reveal_strlit("\\t");
        reveal_strlit("\\b");
        reveal_strlit("\\f");
        reveal_strlit("\\u00");
    }
    if c == '"' {
        String::from_str("\\\"")
    } else if c == '\\' {
        String::from_str("\\\\")
    } else if c == '\n' {
        String::from_str("\\n")
    } else if c == '\r' {
        String::from_str("\\r")
    } else if c == '\t' {
        String::from_str("\\t")
    } else if c == '\u{8}' {
        String::from_str("\\b")
    } else if c == '\u{c}' {
        String::from_str("\\f")
    } else if (c as u32) < 32 {
        let code = c as u32;
        let r = String::from_str("\\u00").concat(hex_text(code / 16)).concat(hex_text(code % 16));
        assert(r@ =~= json_char(c));
        r
    } else {
        String::from_str(piece)
    }
}

/// Escapes a text for use inside a JSON string.
pub fn json_escape(s: &str) -> (r: String)
    ensures
        r@ == json_text(s@),
{
    let n = s.unicode_len();
    let mut out = String::new();
    let mut i: usize = 0;
    while i < n
        invariant
            n == s@.len(),
            i <= n,
            out@ == json_text(s@.take(i as int)),
        decreases n - i,
    {
        let c = s.get_char(i);
        let piece = s.substring_char(i, i + 1);
        assert(piece@ =~= seq![c]);
        let esc = json_piece(c, piece);
        out.append(esc.as_str());
        assert(s@.take(i as int + 1).drop_last() =~= s@.take(i as int));
        i = i + 1;
    }
    assert(s@.take(n as int) =~= s@);
    out
}

/// The JSON body of an error answer: `{"error":<message>,"status":<code>}`.
pub open spec fn error_body_spec(e: crate::error::GatewayError) -> Seq<char> {
    "{\"error\":\""@ + json_text(crate::error::message_of(e)) + "\",\"status\":"@
        + crate::headers::decimal(crate::error::status_of(e) as nat) + "}"@
}

pub fn error_body(e: &crate::error::GatewayError) -> (r: String)
    ensures
        r@ == error_body_spec(*e),
{
    let msg = e.to_string();
    let code = crate::headers::u64_text(e.status_code() as u64);
    String::from_str("{\"error\":\"").concat(json_escape(msg.as_str()).as_str()).concat("\",\"status\":")
        .concat(code.as_str()).concat("}")
}

} // verus!
