//! The response model: construction with content negotiation and header
//! bookkeeping, and the rendering to wire bytes.
use vstd::prelude::*;
use vstd::slice::slice_to_vec;
use vstd::utf8::encode_utf8;
use std::io::Write;
use crate::protocol::{is_supported_coding, reason, reason_phrase, segment_is, version_text, HTTPVersion};
use crate::request::{pairs_view, Request, RequestView};
use crate::text::{chars_of, decimal, decimal_string, split_bounds, split_on, string_of, trim, trim_bounds};

verus! {

/// An HTTP response, built once from a request and serialized once.
pub struct Response {
    http_version: HTTPVersion,
    status_code: u16,
    /// The header pairs, in the order they are sent.
    pub headers: Vec<(String, String)>,
    body: Option<Vec<u8>>,
}

/// The mathematical model of a response.
pub struct ResponseView {
    pub version: HTTPVersion,
    pub status: u16,
    pub headers: Seq<(Seq<char>, Seq<char>)>,
    pub body: Option<Seq<u8>>,
}

impl View for Response {
    type V = ResponseView;

    closed spec fn view(&self) -> ResponseView {
        ResponseView {
            version: self.http_version,
            status: self.status_code,
            headers: pairs_view(self.headers@),
            body: match self.body {
                Some(b) => Some(b@),
                None => None,
            },
        }
    }
}

/// An optional string seen as an optional character sequence.
pub open spec fn opt_view(o: Option<String>) -> Option<Seq<char>> {
    match o {
        Some(s) => Some(s@),
        None => None,
    }
}

/// The value of the first header named exactly `name`.
pub open spec fn first_value(hs: Seq<(Seq<char>, Seq<char>)>, name: Seq<char>) -> Option<Seq<char>>
    decreases hs.len(),
{
    if hs.len() == 0 {
        None
    } else if hs[0].0 == name {
        Some(hs[0].1)
    } else {
        first_value(hs.drop_first(), name)
    }
}

/// The first token, trimmed, that names a supported coding.
pub open spec fn first_coding(tokens: Seq<Seq<char>>) -> Option<Seq<char>>
    decreases tokens.len(),
{
    if tokens.len() == 0 {
        None
    } else if is_supported_coding(trim(tokens[0])) {
        Some(trim(tokens[0]))
    } else {
        first_coding(tokens.drop_first())
    }
}

/// The coding chosen for a response to a request with headers `hs`: the
/// first supported token of the first "Accept-Encoding" header, scanned in
/// the order the client wrote them.
pub open spec fn negotiated(hs: Seq<(Seq<char>, Seq<char>)>) -> Option<Seq<char>> {
    match first_value(hs, "Accept-Encoding"@) {
        Some(v) => first_coding(split_on(v, seq![','])),
        None => None,
    }
}

/// Whether the headers hold the exact pair ("Connection", "close").
pub open spec fn asks_close(hs: Seq<(Seq<char>, Seq<char>)>) -> bool {
    exists|i: int| 0 <= i < hs.len() && hs[i] == ("Connection"@, "close"@)
}

/// The gzip stream, default level, that flate2 writes for `data`.
pub uninterp spec fn gzip_of(data: Seq<u8>) -> Seq<u8>;

/// The response carrying `payload` as its body, already encoded with
/// `coding` when one is given: headers in the order encoding, connection,
/// content type, content length.
pub open spec fn framed(
    req: RequestView,
    content_type: Seq<char>,
    status: u16,
    coding: Option<Seq<char>>,
    payload: Seq<u8>,
) -> ResponseView {
    ResponseView {
        version: req.version,
        status,
        headers: (if coding is Some {
            seq![("Content-Encoding"@, coding->0)]
        } else {
            seq![]
        }) + (if asks_close(req.headers) {
            seq![("Connection"@, "close"@)]
        } else {
            seq![]
        }) + seq![("Content-Type"@, content_type), ("Content-Length"@, decimal(payload.len()))],
        body: Some(payload),
    }
}

/// The response built for `req` with the given status and optional text body.
pub open spec fn build(
    req: RequestView,
    content_type: Option<Seq<char>>,
    status: u16,
    body: Option<Seq<char>>,
) -> ResponseView {
    match body {
        None => ResponseView { version: req.version, status, headers: seq![], body: None },
        Some(b) => {
            let coding = negotiated(req.headers);
            let raw = encode_utf8(b);
            framed(
                req,
                content_type->0,
                status,
                coding,
                if coding is Some {
                    gzip_of(raw)
                } else {
                    raw
                },
            )
        },
    }
}

/// What every built response satisfies: without a body it has no headers;
/// with one, its last header gives the body's exact length in bytes, and a
/// Content-Encoding header comes first exactly when the body was encoded.
pub open spec fn consistent(r: ResponseView) -> bool {
    match r.body {
        None => r.headers.len() == 0,
        Some(b) => r.headers.len() >= 2 && r.headers.last() == ("Content-Length"@, decimal(b.len())),
    }
}

/// The header section: one "name: value" line per header, in order.
pub open spec fn header_lines(hs: Seq<(Seq<char>, Seq<char>)>) -> Seq<char>
    decreases hs.len(),
{
    if hs.len() == 0 {
        seq![]
    } else {
        header_lines(hs.drop_last()) + hs.last().0 + ": "@ + hs.last().1 + "\r\n"@
    }
}

/// The status line, the header lines and the blank line.
pub open spec fn head(r: ResponseView) -> Seq<char> {
    version_text(r.version) + " "@ + decimal(r.status as nat) + " "@ + reason(r.status) + "\r\n"@
        + header_lines(r.headers) + "\r\n"@
}

/// The bytes sent for a response: its head in UTF-8, then the body as is.
pub open spec fn wire(r: ResponseView) -> Seq<u8> {
    encode_utf8(head(r)) + match r.body {
        Some(b) => b,
        None => seq![],
    }
}

/// Relies on flate2's `GzEncoder` with the default level and header: the
/// stream it writes depends on the input bytes alone. Writing into a `Vec`
/// cannot fail.
#[verifier::external_body]
fn gzip(data: &Vec<u8>) -> (r: Vec<u8>)
    ensures
        r@ == gzip_of(data@),
{
    let mut e = flate2::write::GzEncoder::new(Vec::new(), flate2::Compression::default());
    e.write_all(data).unwrap();
    e.finish().unwrap()
}

/// Whether `s` holds exactly the characters of `lit`.
pub fn text_is(s: &String, lit: &str) -> (r: bool)
    ensures
        r == (s@ == lit@),
{
    let v = chars_of(s.as_str());
    assert(v@.subrange(0, v@.len() as int) =~= v@);
    segment_is(&v, 0, v.len(), lit)
}

/// The value of the first header named exactly `name`.
pub fn find_header(headers: &Vec<(String, String)>, name: &str) -> (r: Option<String>)
    ensures
        opt_view(r) == first_value(pairs_view(headers@), name@),
{
    let mut i: usize = 0;
    assert(pairs_view(headers@).subrange(0, headers@.len() as int) =~= pairs_view(headers@));
    while i < headers.len()
        invariant
            i <= headers@.len(),
            first_value(pairs_view(headers@), name@) == first_value(
                pairs_view(headers@).subrange(i as int, headers@.len() as int),
                name@,
            ),
        decreases headers@.len() - i,
    {
        let ghost rest = pairs_view(headers@).subrange(i as int, headers@.len() as int);
        if text_is(&headers[i].0, name) {
            return Some(headers[i].1.clone());
        }
        assert(rest.drop_first() =~= pairs_view(headers@).subrange(i + 1, headers@.len() as int));
        i = i + 1;
    }
    None
}

/// Whether the headers hold the exact pair ("Connection", "close").
pub fn has_close(headers: &Vec<(String, String)>) -> (r: bool)
    ensures
        r == asks_close(pairs_view(headers@)),
{
    let mut i: usize = 0;
    while i < headers.len()
        invariant
            i <= headers@.len(),
            forall|j: int|
                0 <= j < i ==> #[trigger] pairs_view(headers@)[j] != ("Connection"@, "close"@),
        decreases headers@.len() - i,
    {
        if text_is(&headers[i].0, "Connection") && text_is(&headers[i].1, "close") {
            assert(pairs_view(headers@)[i as int] == ("Connection"@, "close"@));
            return true;
        }
        i = i + 1;
    }
    false
}

/// The coding chosen for a response to a request with these headers.
pub fn negotiate(headers: &Vec<(String, String)>) -> (r: Option<String>)
    ensures
        opt_view(r) == negotiated(pairs_view(headers@)),
{
    let value = match find_header(headers, "Accept-Encoding") {
        Some(v) => v,
        None => {
            return None;
        },
    };
    assert(first_value(pairs_view(headers@), "Accept-Encoding"@) == Some(value@));
    let v = chars_of(value.as_str());
    let comma: Vec<char> = vec![','];
    assert(comma@ =~= seq![',']);
    let parts = split_bounds(&v, &comma);
    let ghost toks = split_on(v@, seq![',']);
    assert forall|j: int| 0 <= j < parts@.len() implies #[trigger] toks[j] == v@.subrange(
        parts@[j].0 as int,
        parts@[j].1 as int,
    ) by {
        assert(split_on(v@, comma@)[j] == v@.subrange(parts@[j].0 as int, parts@[j].1 as int));
    }
    assert(toks.subrange(0, toks.len() as int) =~= toks);
    assert(negotiated(pairs_view(headers@)) == first_coding(toks));
    let mut i: usize = 0;
    while i < parts.len()
        invariant
            i <= parts@.len(),
            parts@.len() == toks.len(),
            toks == split_on(v@, comma@),
            forall|j: int| 0 <= j < parts@.len() ==> (#[trigger] parts@[j]).0 <= parts@[j].1 <= v@.len(),
            forall|j: int|
                0 <= j < parts@.len() ==> #[trigger] toks[j] == v@.subrange(
                    parts@[j].0 as int,
                    parts@[j].1 as int,
                ),
            negotiated(pairs_view(headers@)) == first_coding(toks),
            first_coding(toks) == first_coding(toks.subrange(i as int, toks.len() as int)),
        decreases parts@.len() - i,
    {
        assert(toks[i as int] == v@.subrange(parts@[i as int].0 as int, parts@[i as int].1 as int));
        let (a, b) = trim_bounds(&v, parts[i].0, parts[i].1);
        let ghost rest = toks.subrange(i as int, toks.len() as int);
        assert(rest[0] == toks[i as int]);
        if segment_is(&v, a, b, "gzip") {
            let chosen = string_of(&v, a, b);
            assert(rest.len() > 0);
            assert(first_coding(rest) == Some(trim(rest[0])));
            return Some(chosen);
        }
        assert(rest.drop_first() =~= toks.subrange(i + 1, toks.len() as int));
        i = i + 1;
    }
    None
}

impl Response {
    /// The response carrying `payload`, already encoded with `coding` when
    /// one is given: an optional Content-Encoding header naming the coding, a
    /// Connection header when the request asks to close, then the content
    /// type and the payload's length.
    pub fn framed_response(
        request: &Request,
        content_type: String,
        status_code: u16,
        coding: Option<String>,
        payload: Vec<u8>,
    ) -> (r: Response)
        ensures
            r@ == framed(request@, content_type@, status_code, opt_view(coding), payload@),
            consistent(r@),
    {
        let mut headers: Vec<(String, String)> = Vec::new();
        let ghost mut expect: Seq<(Seq<char>, Seq<char>)> = seq![];
        match coding {
            Some(c) => {
                headers.push(("Content-Encoding".to_owned(), c));
                proof {
                    expect = seq![("Content-Encoding"@, c@)];
                }
            },
            None => {},
        }
        assert(pairs_view(headers@) =~= expect);
        if has_close(&request.headers) {
            headers.push(("Connection".to_owned(), "close".to_owned()));
            proof {
                expect = expect + seq![("Connection"@, "close"@)];
            }
        } else {
            proof {
                expect = expect + seq![];
            }
        }
        assert(pairs_view(headers@) =~= expect);
        let length = decimal_string(payload.len() as u64);
        headers.push(("Content-Type".to_owned(), content_type));
        headers.push(("Content-Length".to_owned(), length));
        assert(pairs_view(headers@) =~= expect + seq![
            ("Content-Type"@, content_type@),
            ("Content-Length"@, decimal(payload@.len())),
        ]);
        Response {
            http_version: request.http_version,
            status_code,
            headers,
            body: Some(payload),
        }
    }

    /// Builds the response to `request`. Without a body there are no
    /// headers. With one, the body is gzip-compressed when the request's
    /// first Accept-Encoding header lists "gzip", and the headers are
    /// assembled as `framed_response` describes.
    pub fn new(
        request: Request,
        content_type: Option<String>,
        status_code: u16,
        body: Option<String>,
    ) -> (r: Self)
        requires
            body is Some ==> content_type is Some,
        ensures
            r@ == build(request@, opt_view(content_type), status_code, opt_view(body)),
            consistent(r@),
    {
        match body {
            None => {
                let r = Response {
                    http_version: request.http_version,
                    status_code,
                    headers: Vec::new(),
                    body: None,
                };
                assert(pairs_view(r.headers@) =~= Seq::<(Seq<char>, Seq<char>)>::empty());
                r
            },
            Some(b) => {
                let raw = slice_to_vec(b.as_str().as_bytes());
                assert(raw@ == encode_utf8(b@));
                let coding = negotiate(&request.headers);
                let payload = match coding {
                    Some(_) => gzip(&raw),
                    None => raw,
                };
                let ct = match content_type {
                    Some(t) => t,
                    None => String::new(),
                };
                Response::framed_response(&request, ct, status_code, coding, payload)
            },
        }
    }

    /// The protocol version, copied from the request.
    pub fn version(&self) -> (r: HTTPVersion)
        ensures
            r == self@.version,
    {
        self.http_version
    }

    /// The status code.
    pub fn status_code(&self) -> (r: u16)
        ensures
            r == self@.status,
    {
        self.status_code
    }

    /// The body bytes as sent, if any.
    pub fn body(&self) -> (r: Option<&Vec<u8>>)
        ensures
            match r {
                Some(b) => self@.body == Some(b@),
                None => self@.body is None,
            },
    {
        match &self.body {
            Some(b) => Some(b),
            None => None,
        }
    }

    /// Whether the connection is to be closed after this response: its
    /// headers hold the exact pair ("Connection", "close").
    pub fn closes_connection(&self) -> (r: bool)
        ensures
            r == asks_close(self@.headers),
    {
        has_close(&self.headers)
    }

    /// The bytes to send: the status line, each header as "name: value",
    /// a blank line, then the body.
    pub fn as_bytes(&self) -> (r: Vec<u8>)
        ensures
            r@ == wire(self@),
    {
        let mut text = String::new();
        text.append(self.http_version.to_str());
        text.append(" ");
        let code = decimal_string(self.status_code as u64);
        text.append(code.as_str());
        text.append(" ");
        text.append(reason_phrase(self.status_code));
        text.append("\r\n");
        let ghost status_part = text@;
        let mut i: usize = 0;
        while i < self.headers.len()
            invariant
                i <= self.headers@.len(),
                text@ == status_part + header_lines(pairs_view(self.headers@).subrange(0, i as int)),
            decreases self.headers@.len() - i,
        {
            let ghost before = text@;
            text.append(self.headers[i].0.as_str());
            text.append(": ");
            text.append(self.headers[i].1.as_str());
            text.append("\r\n");
            let ghost hs = pairs_view(self.headers@).subrange(0, i + 1);
            assert(hs.drop_last() =~= pairs_view(self.headers@).subrange(0, i as int));
            assert(hs.last() == pairs_view(self.headers@)[i as int]);
            i = i + 1;
        }
        text.append("\r\n");
        assert(pairs_view(self.headers@).subrange(0, self.headers@.len() as int) =~= pairs_view(self.headers@));
        assert(text@ =~= head(self@));
        let mut out = slice_to_vec(text.as_str().as_bytes());
        match &self.body {
            Some(b) => {
                let mut tail = b.clone();
                out.append(&mut tail);
            },
            None => {
                assert(out@ =~= out@ + Seq::<u8>::empty());
            },
        }
        out
    }
}

/// How many times the pair `p` occurs in `hs`.
pub open spec fn count_pair(hs: Seq<(Seq<char>, Seq<char>)>, p: (Seq<char>, Seq<char>)) -> nat
    decreases hs.len(),
{
    if hs.len() == 0 {
        0
    } else {
        count_pair(hs.drop_last(), p) + if hs.last() == p {
            1nat
        } else {
            0nat
        }
    }
}

/// A plain-text body of 200, sent to a client that asked for no supported
/// coding, goes out as the status line "<version> 200 OK", the headers, a
/// blank line and the body's bytes verbatim; the last two headers are the
/// content type "text/plain" and the body's length in bytes.
pub proof fn lemma_plain_text_wire(req: RequestView, x: Seq<char>)
    requires
        negotiated(req.headers) is None,
    ensures
        ({
            let r = build(req, Some("text/plain"@), 200, Some(x));
            &&& wire(r) == encode_utf8(
                version_text(req.version) + " 200 OK\r\n"@ + header_lines(r.headers) + "\r\n"@,
            ) + encode_utf8(x)
            &&& r.headers.len() >= 2
            &&& r.headers[r.headers.len() - 2] == ("Content-Type"@, "text/plain"@)
            &&& r.headers.last() == ("Content-Length"@, decimal(encode_utf8(x).len()))
        }),
{
    let r = build(req, Some("text/plain"@), 200, Some(x));
    reveal_strlit(" ");
    reveal_strlit("OK");
    reveal_strlit("\r\n");
    reveal_strlit(" 200 OK\r\n");
    assert(decimal(200) =~= seq!['2', '0', '0']) by {
        assert(decimal(2) == seq!['2']);
        assert(decimal(20) =~= seq!['2', '0']);
    }
    assert(head(r) =~= version_text(req.version) + " 200 OK\r\n"@ + header_lines(r.headers)
        + "\r\n"@);
}

/// The bytes sent for a response depend on the response alone: two
/// renderings of the same response are identical.
pub proof fn lemma_wire_deterministic(r: ResponseView, first: Seq<u8>, second: Seq<u8>)
    requires
        first == wire(r),
        second == wire(r),
    ensures
        first == second,
{
}

/// A response with a body to a request holding ("Connection", "close")
/// carries that pair exactly once.
pub proof fn lemma_close_echoed_once(
    req: RequestView,
    content_type: Seq<char>,
    status: u16,
    body: Seq<char>,
)
    requires
        asks_close(req.headers),
    ensures
        count_pair(
            build(req, Some(content_type), status, Some(body)).headers,
            ("Connection"@, "close"@),
        ) == 1,
{
    let hs = build(req, Some(content_type), status, Some(body)).headers;
    let p = ("Connection"@, "close"@);
    reveal_strlit("Connection");
    reveal_strlit("Content-Type");
    reveal_strlit("Content-Length");
    reveal_strlit("Content-Encoding");
    assert(("Content-Type"@).len() != ("Connection"@).len());
    assert(("Content-Length"@).len() != ("Connection"@).len());
    assert(("Content-Encoding"@).len() != ("Connection"@).len());
    let ct = ("Content-Type"@, content_type);
    let cl = ("Content-Length"@, decimal(
        (if negotiated(req.headers) is Some {
            gzip_of(encode_utf8(body))
        } else {
            encode_utf8(body)
        }).len(),
    ));
    assert(ct != p);
    assert(cl != p);
    let tail = seq![p, ct, cl];
    assert(tail.drop_last() =~= seq![p, ct]);
    assert(seq![p, ct].drop_last() =~= seq![p]);
    assert(seq![p].drop_last() =~= Seq::<(Seq<char>, Seq<char>)>::empty());
    assert(count_pair(Seq::<(Seq<char>, Seq<char>)>::empty(), p) == 0);
    assert(seq![p].last() == p);
    assert(count_pair(seq![p], p) == 1);
    assert(count_pair(seq![p, ct], p) == 1);
    assert(count_pair(tail, p) == 1);
    if negotiated(req.headers) is Some {
        let ce = ("Content-Encoding"@, negotiated(req.headers)->0);
        assert(ce != p);
        let all = seq![ce, p, ct, cl];
        assert(hs =~= all);
        assert(all.drop_last() =~= seq![ce, p, ct]);
        assert(seq![ce, p, ct].drop_last() =~= seq![ce, p]);
        assert(seq![ce, p].drop_last() =~= seq![ce]);
        assert(seq![ce].drop_last() =~= Seq::<(Seq<char>, Seq<char>)>::empty());
        assert(seq![ce].last() == ce);
        assert(count_pair(seq![ce], p) == 0);
        assert(count_pair(seq![ce, p], p) == 1);
        assert(count_pair(seq![ce, p, ct], p) == 1);
    } else {
        assert(hs =~= tail);
    }
}

} // verus!
