use std::io::Read;

use http_server::params::{Args, ServerParams};
use http_server::protocol::{HTTPMethod, HTTPVersion, RequestParseError};
use http_server::request::Request;
use http_server::response::{negotiate, Response};
use http_server::router::{file_op, FileOp, FileResult};
use http_server::text::decimal_string;

fn req(text: &str) -> Request {
    Request::from_str(text.to_string()).expect("request should parse")
}

fn pair(a: &str, b: &str) -> (String, String) {
    (a.to_string(), b.to_string())
}

fn route(text: &str) -> Response {
    Response::parse_request(req(text), None)
}

#[test]
fn parse_keeps_every_token() {
    let r = req("POST /files/a.txt HTTP/1.1\r\nHost: localhost\r\nUser-Agent: curl/8\r\n\r\nhello");
    assert_eq!(r.method, HTTPMethod::POST);
    assert_eq!(r.target, "/files/a.txt");
    assert_eq!(r.http_version, HTTPVersion::Http1_1);
    assert_eq!(r.headers, vec![pair("Host", "localhost"), pair("User-Agent", "curl/8")]);
    assert_eq!(r.body, "hello");
}

#[test]
fn parse_keeps_duplicate_headers_in_order() {
    let r = req("GET / HTTP/2.0\r\nX: 1\r\nY: 2\r\nX: 3\r\n\r\n");
    assert_eq!(r.http_version, HTTPVersion::Http2_0);
    assert_eq!(r.headers, vec![pair("X", "1"), pair("Y", "2"), pair("X", "3")]);
    assert_eq!(r.body, "");
}

#[test]
fn parse_drops_blocks_with_several_separators() {
    let r = req("GET / HTTP/1.0\r\nA: b: c\r\nHost: h\r\n\r\n");
    assert_eq!(r.headers, vec![pair("Host", "h")]);
}

#[test]
fn parse_rejects_http_0_9() {
    let r = Request::from_str("GET / HTTP/0.9\r\nHost: x\r\n\r\n".to_string());
    assert_eq!(r.unwrap_err(), RequestParseError::InvalidVersion);
}

#[test]
fn parse_rejects_unknown_method() {
    let r = Request::from_str("get / HTTP/1.1\r\nHost: x\r\n\r\n".to_string());
    assert_eq!(r.unwrap_err(), RequestParseError::InvalidMethod);
}

#[test]
fn parse_rejects_short_request_line() {
    let r = Request::from_str("GET /\r\nHost: x\r\n\r\n".to_string());
    assert_eq!(r.unwrap_err(), RequestParseError::InvalidRequestLine);
}

#[test]
fn parse_rejects_empty_input() {
    let r = Request::from_str(String::new());
    assert_eq!(r.unwrap_err(), RequestParseError::InvalidRequestLine);
}

#[test]
fn parse_rejects_headerless_request() {
    let r = Request::from_str("GET / HTTP/1.1\r\n\r\n".to_string());
    assert_eq!(r.unwrap_err(), RequestParseError::InvalidHeader);
}

#[test]
fn method_and_version_tokens() {
    assert_eq!(HTTPMethod::from_str("DELETE"), Some(HTTPMethod::DELETE));
    assert_eq!(HTTPMethod::from_str("PATCH"), None);
    assert_eq!(HTTPVersion::from_str("HTTP/3.0"), Some(HTTPVersion::Http3_0));
    assert_eq!(HTTPVersion::from_str("HTTP/1.2"), None);
    assert_eq!(HTTPVersion::Http1_0.to_str(), "HTTP/1.0");
}

#[test]
fn echo_route_returns_rest_of_path() {
    let r = route("GET /echo/foo/bar HTTP/1.1\r\nHost: x\r\n\r\n");
    assert_eq!(r.status_code(), 200);
    assert_eq!(r.body().unwrap().as_slice(), b"foo/bar");
    assert_eq!(r.headers, vec![pair("Content-Type", "text/plain"), pair("Content-Length", "7")]);
}

#[test]
fn echo_route_without_text_is_not_found() {
    let r = route("GET /echo/ HTTP/1.1\r\nHost: x\r\n\r\n");
    assert_eq!(r.status_code(), 404);
    assert!(r.body().is_none());
    assert!(r.headers.is_empty());
}

#[test]
fn hello_route() {
    let r = route("GET /hello HTTP/1.1\r\nHost: x\r\n\r\n");
    assert_eq!(r.status_code(), 200);
    assert_eq!(r.body().unwrap().as_slice(), b"Hello World!");
}

#[test]
fn unknown_route_is_not_found() {
    let r = route("GET /nope HTTP/1.1\r\nHost: x\r\n\r\n");
    assert_eq!(r.status_code(), 404);
    assert!(r.body().is_none());
}

#[test]
fn root_route_has_no_body() {
    let r = route("GET / HTTP/1.1\r\nHost: x\r\n\r\n");
    assert_eq!(r.status_code(), 200);
    assert!(r.body().is_none());
    assert_eq!(r.as_bytes(), b"HTTP/1.1 200 OK\r\n\r\n".to_vec());
}

#[test]
fn user_agent_route_reflects_first_header() {
    let r = route("GET /user-agent HTTP/1.1\r\nUser-Agent: a/1\r\nUser-Agent: b/2\r\n\r\n");
    assert_eq!(r.status_code(), 200);
    assert_eq!(r.body().unwrap().as_slice(), b"a/1");
}

#[test]
fn user_agent_route_without_header_is_bad_request() {
    let r = route("GET /user-agent HTTP/1.1\r\nHost: x\r\n\r\n");
    assert_eq!(r.status_code(), 400);
    assert!(r.body().is_none());
    assert_eq!(r.as_bytes(), b"HTTP/1.1 400 Bad request\r\n\r\n".to_vec());
}

#[test]
fn file_read_route() {
    let q = req("GET /files/dir/a.txt HTTP/1.1\r\nHost: x\r\n\r\n");
    match file_op(&q) {
        Some(FileOp::Read(id)) => assert_eq!(id, "dir/a.txt"),
        other => panic!("unexpected {:?}", other),
    }
    let r = Response::parse_request(q, Some(FileResult::Read(Some("data".to_string()))));
    assert_eq!(r.status_code(), 200);
    assert_eq!(r.body().unwrap().as_slice(), b"data");
    assert_eq!(
        r.headers,
        vec![pair("Content-Type", "application/octet-stream"), pair("Content-Length", "4")]
    );
}

#[test]
fn file_read_miss_is_not_found() {
    let q = req("GET /files/none HTTP/1.1\r\nHost: x\r\n\r\n");
    let r = Response::parse_request(q, Some(FileResult::Read(None)));
    assert_eq!(r.status_code(), 404);
}

#[test]
fn file_write_route() {
    let q = req("POST /files/new.txt HTTP/1.1\r\nHost: x\r\n\r\ncontent");
    match file_op(&q) {
        Some(FileOp::Write(id, body)) => {
            assert_eq!(id, "new.txt");
            assert_eq!(body, "content");
        }
        other => panic!("unexpected {:?}", other),
    }
    let ok = Response::parse_request(q, Some(FileResult::Written(true)));
    assert_eq!(ok.status_code(), 201);
    let q = req("POST /files/new.txt HTTP/1.1\r\nHost: x\r\n\r\ncontent");
    let failed = Response::parse_request(q, Some(FileResult::Written(false)));
    assert_eq!(failed.status_code(), 500);
}

#[test]
fn files_route_without_identifier_is_not_found() {
    let q = req("GET /files/ HTTP/1.1\r\nHost: x\r\n\r\n");
    assert!(file_op(&q).is_none());
    let r = Response::parse_request(q, None);
    assert_eq!(r.status_code(), 404);
}

#[test]
fn plain_text_round_trip() {
    let q = req("GET / HTTP/1.0\r\nHost: x\r\n\r\n");
    let r = Response::new(q, Some("text/plain".to_string()), 200, Some("X".to_string()));
    assert_eq!(
        r.as_bytes(),
        b"HTTP/1.0 200 OK\r\nContent-Type: text/plain\r\nContent-Length: 1\r\n\r\nX".to_vec()
    );
}

#[test]
fn content_length_counts_utf8_bytes() {
    let q = req("GET / HTTP/1.1\r\nHost: x\r\n\r\n");
    let r = Response::new(q, Some("text/plain".to_string()), 200, Some("héllo".to_string()));
    assert_eq!(r.headers[1], pair("Content-Length", "6"));
    assert_eq!(r.body().unwrap().as_slice(), "héllo".as_bytes());
}

#[test]
fn gzip_compression_is_applied() {
    let q = req("GET / HTTP/1.1\r\nAccept-Encoding: gzip\r\n\r\n");
    let r = Response::new(q, Some("text/plain".to_string()), 200, Some("abc".to_string()));
    assert_eq!(r.headers[0], pair("Content-Encoding", "gzip"));
    let body = r.body().unwrap().clone();
    assert_ne!(body, b"abc".to_vec());
    let mut out = String::new();
    flate2::read::GzDecoder::new(body.as_slice()).read_to_string(&mut out).unwrap();
    assert_eq!(out, "abc");
    assert_eq!(r.headers[2], pair("Content-Length", &body.len().to_string()));
    assert_ne!(body.len(), 3);
}

#[test]
fn negotiation_scans_tokens_in_order() {
    assert_eq!(negotiate(&vec![pair("Accept-Encoding", "br, deflate,  gzip ")]), Some("gzip".to_string()));
    assert_eq!(negotiate(&vec![pair("Accept-Encoding", "deflate, br")]), None);
    assert_eq!(negotiate(&vec![pair("Host", "x")]), None);
    assert_eq!(
        negotiate(&vec![pair("Accept-Encoding", "identity"), pair("Accept-Encoding", "gzip")]),
        None
    );
}

#[test]
fn serializing_twice_is_identical() {
    let q = req("GET /echo/abc HTTP/1.1\r\nAccept-Encoding: gzip\r\nConnection: close\r\n\r\n");
    let r = Response::parse_request(q, None);
    assert_eq!(r.as_bytes(), r.as_bytes());
}

#[test]
fn connection_close_is_echoed_once() {
    let q = req("GET /hello HTTP/1.1\r\nConnection: close\r\nConnection: close\r\n\r\n");
    let r = Response::parse_request(q, None);
    let n = r.headers.iter().filter(|h| **h == pair("Connection", "close")).count();
    assert_eq!(n, 1);
    assert!(r.closes_connection());
    assert_eq!(r.headers[0], pair("Connection", "close"));
}

#[test]
fn connection_close_without_body_is_not_echoed() {
    let q = req("GET / HTTP/1.1\r\nConnection: close\r\n\r\n");
    let r = Response::parse_request(q, None);
    assert!(!r.closes_connection());
}

#[test]
fn header_order_is_encoding_connection_type_length() {
    let q = req("GET /echo/hi HTTP/1.1\r\nConnection: close\r\nAccept-Encoding: gzip\r\n\r\n");
    let r = Response::parse_request(q, None);
    let names: Vec<&str> = r.headers.iter().map(|h| h.0.as_str()).collect();
    assert_eq!(names, vec!["Content-Encoding", "Connection", "Content-Type", "Content-Length"]);
}

#[test]
fn unknown_status_reads_unknown() {
    let q = req("GET / HTTP/3.0\r\nHost: x\r\n\r\n");
    let r = Response::new(q, None, 418, None);
    assert_eq!(r.version(), HTTPVersion::Http3_0);
    assert_eq!(r.as_bytes(), b"HTTP/3.0 418 Unknown\r\n\r\n".to_vec());
}

#[test]
fn created_and_server_error_reasons() {
    let q = req("GET / HTTP/1.1\r\nHost: x\r\n\r\n");
    assert_eq!(Response::new(q, None, 201, None).as_bytes(), b"HTTP/1.1 201 Created\r\n\r\n".to_vec());
    let q = req("GET / HTTP/1.1\r\nHost: x\r\n\r\n");
    assert_eq!(
        Response::new(q, None, 500, None).as_bytes(),
        b"HTTP/1.1 500 Internal Server Error\r\n\r\n".to_vec()
    );
}

#[test]
fn decimal_rendering() {
    assert_eq!(decimal_string(0), "0");
    assert_eq!(decimal_string(4221), "4221");
    assert_eq!(decimal_string(u64::MAX), u64::MAX.to_string());
}

fn args(address: Option<&str>, port: Option<u32>, threads: Option<usize>) -> Args {
    Args { address: address.map(|a| a.to_string()), port, max_thread_num: threads }
}

fn params(r: Result<ServerParams, String>) -> ServerParams {
    match r {
        Ok(p) => p,
        Err(e) => panic!("unexpected error {}", e),
    }
}

#[test]
fn params_defaults() {
    let a = args(None, None, None);
    assert_eq!(a.address_or_default(), "127.0.0.1");
    let p = params(a.into_params(4, true));
    assert_eq!(p.get_address(), "127.0.0.1:4221");
    assert_eq!(p.nb_threads, 4);
}

#[test]
fn params_given_values() {
    let p = params(args(Some("0.0.0.0"), Some(8080), Some(2)).into_params(8, true));
    assert_eq!(p.get_address(), "0.0.0.0:8080");
    assert_eq!(p.nb_threads, 2);
}

#[test]
fn params_errors() {
    assert_eq!(args(None, None, None).into_params(0, true).err().unwrap(), "No CPU detected");
    assert_eq!(args(Some("nowhere"), None, None).into_params(2, false).err().unwrap(), "Invalid address");
    assert_eq!(
        args(None, Some(70000), None).into_params(2, true).err().unwrap(),
        "Port number must be between 0 and 65535"
    );
}
