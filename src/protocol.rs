//! Protocol vocabulary: methods, versions, parse-error kinds, the status
//! reason table and the content codings this server applies.
use vstd::prelude::*;
use crate::text::chars_of;

verus! {

/// Why a request buffer could not be parsed.
#[derive(Debug, Clone, Copy, PartialEq, Eq, Structural)]
pub enum RequestParseError {
    InvalidRequestLine,
    InvalidMethod,
    InvalidVersion,
    InvalidHeader,
}

/// The request methods the server recognizes.
#[derive(Debug, Clone, Copy, PartialEq, Eq, Structural)]
pub enum HTTPMethod {
    GET,
    POST,
    PUT,
    DELETE,
}

/// The protocol version tokens the server recognizes.
#[derive(Debug, Clone, Copy, PartialEq, Eq, Structural)]
pub enum HTTPVersion {
    Http1_0,
    Http1_1,
    Http2_0,
    Http3_0,
}

/// The token that names a method on the wire.
pub open spec fn method_text(m: HTTPMethod) -> Seq<char> {
    match m {
        HTTPMethod::GET => "GET"@,
        HTTPMethod::POST => "POST"@,
        HTTPMethod::PUT => "PUT"@,
        HTTPMethod::DELETE => "DELETE"@,
    }
}

/// The method named by token `t`, matched exactly and case-sensitively.
pub open spec fn method_of(t: Seq<char>) -> Option<HTTPMethod> {
    if t == "GET"@ {
        Some(HTTPMethod::GET)
    } else if t == "POST"@ {
        Some(HTTPMethod::POST)
    } else if t == "PUT"@ {
        Some(HTTPMethod::PUT)
    } else if t == "DELETE"@ {
        Some(HTTPMethod::DELETE)
    } else {
        None
    }
}

/// The token that names a version on the wire.
pub open spec fn version_text(v: HTTPVersion) -> Seq<char> {
    match v {
        HTTPVersion::Http1_0 => "HTTP/1.0"@,
        HTTPVersion::Http1_1 => "HTTP/1.1"@,
        HTTPVersion::Http2_0 => "HTTP/2.0"@,
        HTTPVersion::Http3_0 => "HTTP/3.0"@,
    }
}

/// The version named by token `t`, matched exactly.
pub open spec fn version_of(t: Seq<char>) -> Option<HTTPVersion> {
    if t == "HTTP/1.0"@ {
        Some(HTTPVersion::Http1_0)
    } else if t == "HTTP/1.1"@ {
        Some(HTTPVersion::Http1_1)
    } else if t == "HTTP/2.0"@ {
        Some(HTTPVersion::Http2_0)
    } else if t == "HTTP/3.0"@ {
        Some(HTTPVersion::Http3_0)
    } else {
        None
    }
}

/// The reason phrase of a status code; codes outside the table read "Unknown".
pub open spec fn reason(code: u16) -> Seq<char> {
    if code == 200 {
        "OK"@
    } else if code == 201 {
        "Created"@
    } else if code == 400 {
        "Bad request"@
    } else if code == 404 {
        "Not Found"@
    } else if code == 500 {
        "Internal Server Error"@
    } else {
        "Unknown"@
    }
}

/// The content codings this server applies. Only gzip is offered: a coding
/// that is advertised must also transform the body, and "deflate" and "br"
/// are not implemented, so a client asking only for them gets the body as is.
pub open spec fn is_supported_coding(t: Seq<char>) -> bool {
    t == "gzip"@
}

/// Whether `v[lo..hi]` holds exactly the characters of `lit`.
pub fn segment_is(v: &Vec<char>, lo: usize, hi: usize, lit: &str) -> (r: bool)
    requires
        lo <= hi <= v@.len(),
    ensures
        r == (v@.subrange(lo as int, hi as int) == lit@),
{
    let p = chars_of(lit);
    if p.len() != hi - lo {
        return false;
    }
    let mut k: usize = 0;
    while k < p.len()
        invariant
            lo <= hi <= v@.len(),
            p@ == lit@,
            p@.len() == hi - lo,
            k <= p@.len(),
            forall|j: int| 0 <= j < k ==> v@[lo + j] == p@[j],
        decreases p@.len() - k,
    {
        if v[lo + k] != p[k] {
            assert(v@.subrange(lo as int, hi as int)[k as int] != p@[k as int]);
            return false;
        }
        k = k + 1;
    }
    assert(v@.subrange(lo as int, hi as int) =~= p@);
    true
}

/// The method named by `v[lo..hi]`.
pub fn method_in(v: &Vec<char>, lo: usize, hi: usize) -> (r: Option<HTTPMethod>)
    requires
        lo <= hi <= v@.len(),
    ensures
        r == method_of(v@.subrange(lo as int, hi as int)),
{
    if segment_is(v, lo, hi, "GET") {
        Some(HTTPMethod::GET)
    } else if segment_is(v, lo, hi, "POST") {
        Some(HTTPMethod::POST)
    } else if segment_is(v, lo, hi, "PUT") {
        Some(HTTPMethod::PUT)
    } else if segment_is(v, lo, hi, "DELETE") {
        Some(HTTPMethod::DELETE)
    } else {
        None
    }
}

/// The version named by `v[lo..hi]`.
pub fn version_in(v: &Vec<char>, lo: usize, hi: usize) -> (r: Option<HTTPVersion>)
    requires
        lo <= hi <= v@.len(),
    ensures
        r == version_of(v@.subrange(lo as int, hi as int)),
{
    if segment_is(v, lo, hi, "HTTP/1.0") {
        Some(HTTPVersion::Http1_0)
    } else if segment_is(v, lo, hi, "HTTP/1.1") {
        Some(HTTPVersion::Http1_1)
    } else if segment_is(v, lo, hi, "HTTP/2.0") {
        Some(HTTPVersion::Http2_0)
    } else if segment_is(v, lo, hi, "HTTP/3.0") {
        Some(HTTPVersion::Http3_0)
    } else {
        None
    }
}

impl HTTPMethod {
    /// The method named by `method`, or `None` for any other token.
    pub fn from_str(method: &str) -> (r: Option<HTTPMethod>)
        ensures
            r == method_of(method@),
    {
        let v = chars_of(method);
        let r = method_in(&v, 0, v.len());
        assert(v@.subrange(0, v@.len() as int) =~= method@);
        r
    }
}

impl HTTPVersion {
    /// The version named by `version`, or `None` for any other token.
    pub fn from_str(version: &str) -> (r: Option<HTTPVersion>)
        ensures
            r == version_of(version@),
    {
        let v = chars_of(version);
        let r = version_in(&v, 0, v.len());
        assert(v@.subrange(0, v@.len() as int) =~= version@);
        r
    }

    /// The wire token of this version.
    pub fn to_str(&self) -> (r: &'static str)
        ensures
            r@ == version_text(*self),
    {
        match self {
            HTTPVersion::Http1_0 => "HTTP/1.0",
            HTTPVersion::Http1_1 => "HTTP/1.1",
            HTTPVersion::Http2_0 => "HTTP/2.0",
            HTTPVersion::Http3_0 => "HTTP/3.0",
        }
    }
}

/// The reason phrase sent after a status code.
pub fn reason_phrase(code: u16) -> (r: &'static str)
    ensures
        r@ == reason(code),
{
    if code == 200 {
        "OK"
    } else if code == 201 {
        "Created"
    } else if code == 400 {
        "Bad request"
    } else if code == 404 {
        "Not Found"
    } else if code == 500 {
        "Internal Server Error"
    } else {
        "Unknown"
    }
}

/// A method's token read back gives the method again.
pub proof fn lemma_method_round_trip(t: Seq<char>)
    requires
        method_of(t) is Some,
    ensures
        method_text(method_of(t)->0) == t,
{
}

/// A version's token read back gives the version again.
pub proof fn lemma_version_round_trip(t: Seq<char>)
    requires
        version_of(t) is Some,
    ensures
        version_text(version_of(t)->0) == t,
{
}

} // verus!
