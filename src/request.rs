//! The request model and the parser from a raw text buffer.
use vstd::prelude::*;
use crate::protocol::{
    method_in, method_of, method_text, version_in, version_of, version_text, HTTPMethod,
    HTTPVersion, RequestParseError,
};
use crate::text::{split_bounds, split_on, string_of, word_bounds, words};

verus! {

/// An HTTP request, as produced by a successful parse.
#[derive(Debug)]
pub struct Request {
    /// The request method.
    pub method: HTTPMethod,
    /// The requested path.
    pub target: String,
    /// The protocol version token of the request line.
    pub http_version: HTTPVersion,
    /// The header pairs, in wire order, duplicates kept.
    pub headers: Vec<(String, String)>,
    /// The body, empty when the request carries none.
    pub body: String,
}

/// The mathematical model of a request.
pub struct RequestView {
    pub method: HTTPMethod,
    pub target: Seq<char>,
    pub version: HTTPVersion,
    pub headers: Seq<(Seq<char>, Seq<char>)>,
    pub body: Seq<char>,
}

/// Header pairs seen as character sequences.
pub open spec fn pairs_view(h: Seq<(String, String)>) -> Seq<(Seq<char>, Seq<char>)> {
    h.map_values(|p: (String, String)| (p.0@, p.1@))
}

impl View for Request {
    type V = RequestView;

    open spec fn view(&self) -> RequestView {
        RequestView {
            method: self.method,
            target: self.target@,
            version: self.http_version,
            headers: pairs_view(self.headers@),
            body: self.body@,
        }
    }
}

/// The line separator.
pub open spec fn crlf() -> Seq<char> {
    seq!['\r', '\n']
}

/// The separator between a header's name and its value.
pub open spec fn colon_space() -> Seq<char> {
    seq![':', ' ']
}

/// The header pairs of `blocks`: each block that splits on ": " into exactly
/// two parts gives one pair, in order; other blocks give none.
pub open spec fn header_pairs(blocks: Seq<Seq<char>>) -> Seq<(Seq<char>, Seq<char>)>
    decreases blocks.len(),
{
    if blocks.len() == 0 {
        seq![]
    } else {
        let parts = split_on(blocks.last(), colon_space());
        let earlier = header_pairs(blocks.drop_last());
        if parts.len() == 2 {
            earlier.push((parts[0], parts[1]))
        } else {
            earlier
        }
    }
}

/// The body of `blocks`: the last non-empty block without ": ", or empty.
pub open spec fn body_of(blocks: Seq<Seq<char>>) -> Seq<char>
    decreases blocks.len(),
{
    if blocks.len() == 0 {
        seq![]
    } else if split_on(blocks.last(), colon_space()).len() == 1 && blocks.last().len() > 0 {
        blocks.last()
    } else {
        body_of(blocks.drop_last())
    }
}

/// What parsing the text `s` gives.
pub open spec fn parse(s: Seq<char>) -> Result<RequestView, RequestParseError> {
    let blocks = split_on(s, crlf());
    let line = words(blocks[0]);
    if blocks.len() == 0 || line.len() != 3 {
        Err(RequestParseError::InvalidRequestLine)
    } else if method_of(line[0]) is None {
        Err(RequestParseError::InvalidMethod)
    } else if line[1].len() == 0 {
        Err(RequestParseError::InvalidRequestLine)
    } else if version_of(line[2]) is None {
        Err(RequestParseError::InvalidVersion)
    } else if header_pairs(blocks.drop_first()).len() == 0 {
        Err(RequestParseError::InvalidHeader)
    } else {
        Ok(
            RequestView {
                method: method_of(line[0])->0,
                target: line[1],
                version: version_of(line[2])->0,
                headers: header_pairs(blocks.drop_first()),
                body: body_of(blocks.drop_first()),
            },
        )
    }
}

/// A copy of `v[lo..hi]`.
fn copy_range(v: &Vec<char>, lo: usize, hi: usize) -> (r: Vec<char>)
    requires
        lo <= hi <= v@.len(),
    ensures
        r@ == v@.subrange(lo as int, hi as int),
{
    let mut r: Vec<char> = Vec::new();
    let mut k: usize = lo;
    while k < hi
        invariant
            lo <= k <= hi <= v@.len(),
            r@ == v@.subrange(lo as int, k as int),
        decreases hi - k,
    {
        r.push(v[k]);
        k = k + 1;
        assert(r@ =~= v@.subrange(lo as int, k as int));
    }
    r
}

impl Request {
    /// Parses one request buffer. The first CRLF-separated block is the
    /// request line; each later block is a header when it splits on ": "
    /// into exactly two parts, the body when it is non-empty and holds no
    /// ": ", and is dropped otherwise. A request without any header is
    /// rejected with `InvalidHeader`.
    pub fn from_str(request: String) -> (r: Result<Self, RequestParseError>)
        ensures
            match r {
                Ok(q) => parse(request@) == Ok::<RequestView, RequestParseError>(q@),
                Err(e) => parse(request@) == Err::<RequestView, RequestParseError>(e),
            },
    {
        let v = crate::text::chars_of(request.as_str());
        let sep: Vec<char> = vec!['\r', '\n'];
        let colon: Vec<char> = vec![':', ' '];
        assert(sep@ =~= crlf());
        assert(colon@ =~= colon_space());
        let blocks = split_bounds(&v, &sep);
        let ghost bs = split_on(v@, crlf());
        if blocks.len() == 0 {
            return Err(RequestParseError::InvalidRequestLine);
        }
        assert(bs[0] == v@.subrange(blocks@[0].0 as int, blocks@[0].1 as int));
        let line = copy_range(&v, blocks[0].0, blocks[0].1);
        let toks = word_bounds(&line);
        if toks.len() != 3 {
            return Err(RequestParseError::InvalidRequestLine);
        }
        assert(words(bs[0])[0] == line@.subrange(toks@[0].0 as int, toks@[0].1 as int));
        assert(words(bs[0])[1] == line@.subrange(toks@[1].0 as int, toks@[1].1 as int));
        assert(words(bs[0])[2] == line@.subrange(toks@[2].0 as int, toks@[2].1 as int));
        let method = match method_in(&line, toks[0].0, toks[0].1) {
            Some(m) => m,
            None => {
                return Err(RequestParseError::InvalidMethod);
            },
        };
        if toks[1].0 == toks[1].1 {
            return Err(RequestParseError::InvalidRequestLine);
        }
        let target = string_of(&line, toks[1].0, toks[1].1);
        let http_version = match version_in(&line, toks[2].0, toks[2].1) {
            Some(ver) => ver,
            None => {
                return Err(RequestParseError::InvalidVersion);
            },
        };
        let mut headers: Vec<(String, String)> = Vec::new();
        let mut body = String::new();
        assert forall|j: int| 0 <= j < blocks@.len() implies #[trigger] bs[j] == v@.subrange(
            blocks@[j].0 as int,
            blocks@[j].1 as int,
        ) by {
            assert(split_on(v@, sep@)[j] == v@.subrange(blocks@[j].0 as int, blocks@[j].1 as int));
        }
        let mut i: usize = 1;
        while i < blocks.len()
            invariant
                1 <= i <= blocks@.len(),
                blocks@.len() == bs.len(),
                colon@ == colon_space(),
                bs == split_on(v@, crlf()),
                forall|j: int| 0 <= j < blocks@.len() ==> (#[trigger] blocks@[j]).0 <= blocks@[j].1 <= v@.len(),
                forall|j: int|
                    0 <= j < blocks@.len() ==> #[trigger] bs[j] == v@.subrange(
                        blocks@[j].0 as int,
                        blocks@[j].1 as int,
                    ),
                pairs_view(headers@) == header_pairs(bs.subrange(1, i as int)),
                body@ == body_of(bs.subrange(1, i as int)),
            decreases blocks@.len() - i,
        {
            let ghost prev = bs.subrange(1, i as int);
            let ghost next = bs.subrange(1, i + 1);
            assert(next.drop_last() =~= prev);
            assert(next.last() == bs[i as int]);
            let block = copy_range(&v, blocks[i].0, blocks[i].1);
            let parts = split_bounds(&block, &colon);
            assert(bs[i as int] == block@);
            if parts.len() == 2 {
                assert(split_on(block@, colon@)[0] == block@.subrange(parts@[0].0 as int, parts@[0].1 as int));
                assert(split_on(block@, colon@)[1] == block@.subrange(parts@[1].0 as int, parts@[1].1 as int));
                let name = string_of(&block, parts[0].0, parts[0].1);
                let value = string_of(&block, parts[1].0, parts[1].1);
                let ghost old_h = headers@;
                headers.push((name, value));
                assert(pairs_view(headers@) =~= pairs_view(old_h).push((name@, value@)));
            } else if parts.len() == 1 && block.len() > 0 {
                body = string_of(&block, 0, block.len());
                assert(block@.subrange(0, block@.len() as int) =~= block@);
            }
            i = i + 1;
        }
        assert(bs.subrange(1, bs.len() as int) =~= bs.drop_first());
        if headers.len() == 0 {
            return Err(RequestParseError::InvalidHeader);
        }
        let q = Request { method, target, http_version, headers, body };
        Ok(q)
    }
}

/// A request whose first line is three words, a known method, a non-empty
/// target and a known version, and which carries at least one header, parses:
/// each field of the result is the corresponding token of the input.
pub proof fn lemma_parse_keeps_tokens(s: Seq<char>)
    requires
        words(split_on(s, crlf())[0]).len() == 3,
        method_of(words(split_on(s, crlf())[0])[0]) is Some,
        words(split_on(s, crlf())[0])[1].len() > 0,
        version_of(words(split_on(s, crlf())[0])[2]) is Some,
        header_pairs(split_on(s, crlf()).drop_first()).len() > 0,
    ensures
        parse(s) is Ok,
        method_text((parse(s)->Ok_0).method) == words(split_on(s, crlf())[0])[0],
        (parse(s)->Ok_0).target == words(split_on(s, crlf())[0])[1],
        version_text((parse(s)->Ok_0).version) == words(split_on(s, crlf())[0])[2],
        (parse(s)->Ok_0).headers == header_pairs(split_on(s, crlf()).drop_first()),
        (parse(s)->Ok_0).body == body_of(split_on(s, crlf()).drop_first()),
{
    let line = words(split_on(s, crlf())[0]);
    crate::protocol::lemma_method_round_trip(line[0]);
    crate::protocol::lemma_version_round_trip(line[2]);
    lemma_split_nonempty(s, crlf(), 0, 0);
}

/// Splitting never yields an empty list of pieces.
pub proof fn lemma_split_nonempty(s: Seq<char>, pat: Seq<char>, start: int, i: int)
    ensures
        crate::text::split_scan(s, pat, start, i).len() > 0,
    decreases s.len() - i,
{
    if pat.len() == 0 || i < 0 || i + pat.len() > s.len() {
    } else if crate::text::occurs_at(s, pat, i) {
    } else {
        lemma_split_nonempty(s, pat, start, i + 1);
    }
}

/// A request line whose third word is "HTTP/0.9", after three words and a
/// known method, fails with the version error and yields no request.
pub proof fn lemma_old_version_rejected(s: Seq<char>)
    requires
        words(split_on(s, crlf())[0]).len() == 3,
        method_of(words(split_on(s, crlf())[0])[0]) is Some,
        words(split_on(s, crlf())[0])[2] == "HTTP/0.9"@,
    ensures
        parse(s) == Err::<RequestView, RequestParseError>(RequestParseError::InvalidVersion),
{
    lemma_split_nonempty(s, crlf(), 0, 0);
    lemma_words_nonempty(split_on(s, crlf())[0], 0, 0);
    reveal_strlit("HTTP/0.9");
    reveal_strlit("HTTP/1.0");
    reveal_strlit("HTTP/1.1");
    reveal_strlit("HTTP/2.0");
    reveal_strlit("HTTP/3.0");
    assert("HTTP/0.9"@[5] != "HTTP/1.0"@[5]);
    assert("HTTP/0.9"@[5] != "HTTP/1.1"@[5]);
    assert("HTTP/0.9"@[5] != "HTTP/2.0"@[5]);
    assert("HTTP/0.9"@[5] != "HTTP/3.0"@[5]);
}

/// Every white-space separated word is non-empty.
pub proof fn lemma_words_nonempty(s: Seq<char>, start: int, i: int)
    requires
        0 <= start <= i,
    ensures
        forall|j: int|
            0 <= j < crate::text::word_scan(s, start, i).len() ==> (#[trigger] crate::text::word_scan(
                s,
                start,
                i,
            )[j]).len() > 0,
    decreases s.len() - i,
{
    if i < 0 || i >= s.len() {
        if start < s.len() {
            assert(crate::text::word_scan(s, start, i)[0] == s.subrange(start, s.len() as int));
        }
    } else if crate::text::is_white_space(s[i]) {
        lemma_words_nonempty(s, i + 1, i + 1);
        let head: Seq<Seq<char>> = if start < i {
            seq![s.subrange(start, i)]
        } else {
            seq![]
        };
        let tail = crate::text::word_scan(s, i + 1, i + 1);
        assert(crate::text::word_scan(s, start, i) == head + tail);
        assert forall|j: int| 0 <= j < (head + tail).len() implies (#[trigger] (head + tail)[j]).len()
            > 0 by {
            if j >= head.len() {
                assert((head + tail)[j] == tail[j - head.len()]);
            } else {
                assert((head + tail)[j] == s.subrange(start, i));
            }
        }
    } else {
        lemma_words_nonempty(s, start, i + 1);
        assert(crate::text::word_scan(s, start, i) == crate::text::word_scan(s, start, i + 1));
    }
}

} // verus!
