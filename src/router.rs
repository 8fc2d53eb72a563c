//! The route table. File access is a collaborator outside the library: the
//! caller asks `file_op` which storage call a request needs, performs it, and
//! hands its outcome to `Response::parse_request`.
use vstd::prelude::*;
use crate::protocol::{segment_is, HTTPMethod};
use crate::request::{Request, RequestView};
use crate::response::{build, consistent, first_value, find_header, Response, ResponseView};
use crate::text::{chars_of, string_of};

verus! {

/// A storage call that a request needs.
#[derive(Debug)]
pub enum FileOp {
    /// Read the file with this identifier.
    Read(String),
    /// Write the content (second) to the file with this identifier (first).
    Write(String, String),
}

/// What the storage collaborator reported.
#[derive(Debug)]
pub enum FileResult {
    /// The content read, or `None` when the file could not be read.
    Read(Option<String>),
    /// Whether the write succeeded.
    Written(bool),
}

/// Whether `t` begins with `p`.
pub open spec fn has_prefix(t: Seq<char>, p: Seq<char>) -> bool {
    p.len() <= t.len() && t.subrange(0, p.len() as int) == p
}

/// What follows the prefix `p` in `t`: for a target that starts with
/// "/echo/" or "/files/", the path segments after the second "/", joined
/// with "/" again.
pub open spec fn after(t: Seq<char>, p: Seq<char>) -> Seq<char> {
    t.subrange(p.len() as int, t.len() as int)
}

/// Whether the request is one for the file routes with a non-empty identifier.
pub open spec fn wants_file(req: RequestView) -> bool {
    !has_prefix(req.target, "/echo/"@) && has_prefix(req.target, "/files/"@) && after(
        req.target,
        "/files/"@,
    ).len() > 0
}

/// The response to `req`, given what storage reported when the route needed it.
/// A missing or mismatched report counts as a failed storage call.
pub open spec fn route(req: RequestView, file: Option<FileResult>) -> ResponseView {
    let t = req.target;
    if has_prefix(t, "/echo/"@) {
        if after(t, "/echo/"@).len() > 0 {
            build(req, Some("text/plain"@), 200, Some(after(t, "/echo/"@)))
        } else {
            build(req, None, 404, None)
        }
    } else if has_prefix(t, "/files/"@) {
        if after(t, "/files/"@).len() == 0 {
            build(req, None, 404, None)
        } else if req.method == HTTPMethod::POST {
            match file {
                Some(FileResult::Written(true)) => build(req, None, 201, None),
                _ => build(req, None, 500, None),
            }
        } else {
            match file {
                Some(FileResult::Read(Some(c))) => build(
                    req,
                    Some("application/octet-stream"@),
                    200,
                    Some(c@),
                ),
                _ => build(req, None, 404, None),
            }
        }
    } else if t == "/hello"@ {
        build(req, Some("text/plain"@), 200, Some("Hello World!"@))
    } else if t == "/user-agent"@ {
        match first_value(req.headers, "User-Agent"@) {
            Some(ua) => build(req, Some("text/plain"@), 200, Some(ua)),
            None => build(req, None, 400, None),
        }
    } else if t == "/"@ {
        build(req, None, 200, None)
    } else {
        build(req, None, 404, None)
    }
}

/// Whether `v` begins with the characters of `lit`, and how many those are.
fn starts_with(v: &Vec<char>, lit: &str) -> (r: (bool, usize))
    ensures
        r.1 == lit@.len(),
        r.0 == has_prefix(v@, lit@),
{
    let n = chars_of(lit).len();
    if n > v.len() {
        (false, n)
    } else {
        (segment_is(v, 0, n, lit), n)
    }
}

/// The storage call that `request` needs: a write of the body for a POST to
/// "/files/<id>", a read for any other method there, none elsewhere.
pub fn file_op(request: &Request) -> (r: Option<FileOp>)
    ensures
        match r {
            None => !wants_file(request@),
            Some(FileOp::Read(id)) => wants_file(request@) && request.method != HTTPMethod::POST
                && id@ == after(request.target@, "/files/"@),
            Some(FileOp::Write(id, content)) => wants_file(request@) && request.method
                == HTTPMethod::POST && id@ == after(request.target@, "/files/"@) && content@
                == request.body@,
        },
{
    let t = chars_of(request.target.as_str());
    let (echo, _) = starts_with(&t, "/echo/");
    let (files, n) = starts_with(&t, "/files/");
    if echo || !files || n == t.len() {
        return None;
    }
    let id = string_of(&t, n, t.len());
    if request.method == HTTPMethod::POST {
        Some(FileOp::Write(id, request.body.clone()))
    } else {
        Some(FileOp::Read(id))
    }
}

impl Response {
    /// The response to `request` by the route table: "/echo/<text>",
    /// "/files/<id>" (answered from `file`, the outcome of the call that
    /// `file_op` named), "/hello", "/user-agent" (400 when the request has
    /// no User-Agent header), "/", and 404 for anything else.
    pub fn parse_request(request: Request, file: Option<FileResult>) -> (r: Self)
        ensures
            r@ == route(request@, file),
            consistent(r@),
    {
        let t = chars_of(request.target.as_str());
        let (echo, n) = starts_with(&t, "/echo/");
        if echo {
            if n < t.len() {
                let content = string_of(&t, n, t.len());
                return Response::new(request, Some("text/plain".to_owned()), 200, Some(content));
            } else {
                return Response::new(request, None, 404, None);
            }
        }
        let (files, n) = starts_with(&t, "/files/");
        if files {
            if n == t.len() {
                return Response::new(request, None, 404, None);
            }
            if request.method == HTTPMethod::POST {
                return match file {
                    Some(FileResult::Written(true)) => Response::new(request, None, 201, None),
                    _ => Response::new(request, None, 500, None),
                };
            }
            return match file {
                Some(FileResult::Read(Some(c))) => Response::new(
                    request,
                    Some("application/octet-stream".to_owned()),
                    200,
                    Some(c),
                ),
                _ => Response::new(request, None, 404, None),
            };
        }
        if crate::response::text_is(&request.target, "/hello") {
            return Response::new(
                request,
                Some("text/plain".to_owned()),
                200,
                Some("Hello World!".to_owned()),
            );
        }
        if crate::response::text_is(&request.target, "/user-agent") {
            return match find_header(&request.headers, "User-Agent") {
                Some(ua) => Response::new(request, Some("text/plain".to_owned()), 200, Some(ua)),
                None => Response::new(request, None, 400, None),
            };
        }
        if crate::response::text_is(&request.target, "/") {
            Response::new(request, None, 200, None)
        } else {
            Response::new(request, None, 404, None)
        }
    }
}

} // verus!
