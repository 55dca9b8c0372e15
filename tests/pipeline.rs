use flate2::write::{DeflateEncoder, GzEncoder};
use flate2::Compression;
use http_core::connection::{handle_http_message, next_state, ConnEvent, ConnState};
use http_core::request::{ParseStep, Request, RequestError, RequestParser};
use http_core::response::{
    decimal_exec, handle_response, select_encoding, status_line, Encoding, HttpCode, Response,
};
use http_core::route::{handle_file_content, handle_file_upload, handle_request, Dispatch, UploadOutcome};
use std::io::Write;

/// Drives the parser over `input` as a connection would: line by line, then the body.
fn parse(input: &[u8]) -> Result<Option<Request>, RequestError> {
    let mut parser = RequestParser::new();
    let mut rest = input;
    loop {
        let end = rest.iter().position(|b| *b == b'\n').map(|i| i + 1).unwrap_or(rest.len());
        let (line, tail) = rest.split_at(end);
        rest = tail;
        match parser.feed_line(line)? {
            ParseStep::Blank => return Ok(None),
            ParseStep::NeedLine => {}
            ParseStep::NeedBody(n) => {
                assert!(rest.len() >= n, "short body");
                return Ok(Some(parser.finish(rest[..n].to_vec())));
            }
        }
    }
}

fn respond(request: &Request) -> Response {
    match handle_request(request) {
        Dispatch::Respond(r) => r,
        Dispatch::ReadFile(_) | Dispatch::WriteFile(_) => panic!("file work not expected"),
    }
}

fn gzip(data: &[u8]) -> Vec<u8> {
    let mut e = GzEncoder::new(Vec::new(), Compression::default());
    e.write_all(data).unwrap();
    e.finish().unwrap()
}

fn deflate(data: &[u8]) -> Vec<u8> {
    let mut e = DeflateEncoder::new(Vec::new(), Compression::default());
    e.write_all(data).unwrap();
    e.finish().unwrap()
}

#[test]
fn root_request_gets_empty_ok() {
    let req = parse(b"GET / HTTP/1.1\r\n\r\n").unwrap().unwrap();
    assert!(req.is_persistent());
    let resp = respond(&req);
    assert_eq!(resp.status, HttpCode::Okay);
    assert!(resp.content.is_empty());
    let bytes = handle_http_message(&req, resp);
    assert_eq!(bytes, b"HTTP/1.1 200 OK\r\n\r\n".to_vec());
}

#[test]
fn echo_with_gzip_is_compressed() {
    let req = parse(b"GET /echo/abc HTTP/1.1\r\nAccept-Encoding: gzip\r\n\r\n").unwrap().unwrap();
    let resp = respond(&req);
    let resp = http_core::middleware::handle_middlewares(&req, resp);
    let expected = gzip(b"abc");
    assert_eq!(resp.status, HttpCode::Okay);
    assert_eq!(resp.content_type, b"text/plain".to_vec());
    assert_eq!(resp.content_encoding, Some(b"gzip".to_vec()));
    assert_eq!(resp.content, expected);
    let bytes = handle_response(resp);
    let mut wire = format!(
        "HTTP/1.1 200 OK\r\nContent-Type: text/plain\r\nContent-Length: {}\r\nContent-Encoding: gzip\r\n\r\n",
        expected.len()
    )
    .into_bytes();
    wire.extend_from_slice(&expected);
    assert_eq!(bytes, wire);
}

#[test]
fn unknown_path_on_http10_closes() {
    let req = parse(b"GET /nope HTTP/1.0\r\n\r\n").unwrap().unwrap();
    assert!(!req.is_persistent());
    let resp = respond(&req);
    assert_eq!(resp.status, HttpCode::NotFound);
    let bytes = handle_http_message(&req, resp);
    assert_eq!(bytes, b"HTTP/1.0 404 Not Found\r\n\r\n".to_vec());
    let s = next_state(ConnState::AwaitingRequest, ConnEvent::Parsed { persistent: req.is_persistent() });
    let s = next_state(s, ConnEvent::Responded);
    assert_eq!(next_state(s, ConnEvent::Wrote), ConnState::Closing);
}

#[test]
fn upload_is_created() {
    let req = parse(b"POST /files/test.txt HTTP/1.1\r\nContent-Length: 5\r\n\r\nhello").unwrap().unwrap();
    assert_eq!(req.body, b"hello".to_vec());
    match handle_request(&req) {
        Dispatch::WriteFile(name) => assert_eq!(name, b"test.txt".to_vec()),
        _ => panic!("expected an upload"),
    }
    let resp = handle_file_upload(UploadOutcome::Written);
    assert_eq!(resp.status, HttpCode::Created);
    assert!(resp.content.is_empty());
    let bytes = handle_http_message(&req, resp);
    assert_eq!(bytes, b"HTTP/1.1 201 Created\r\n\r\n".to_vec());
}

#[test]
fn persistence_follows_version_and_connection() {
    assert!(parse(b"GET / HTTP/1.1\r\n\r\n").unwrap().unwrap().persistent);
    assert!(!parse(b"GET / HTTP/1.1\r\nConnection: close\r\n\r\n").unwrap().unwrap().persistent);
    assert!(!parse(b"GET / HTTP/1.0\r\nConnection: keep-alive\r\n\r\n").unwrap().unwrap().persistent);
    assert!(!parse(b"GET / HTTP/1.0\r\nConnection: close\r\n\r\n").unwrap().unwrap().persistent);
    assert!(parse(b"GET / HTTP/1.1\r\nConnection: keep-alive\r\n\r\n").unwrap().unwrap().persistent);
    assert!(parse(b"GET / HTTP/1.1\r\nConnection: Close\r\n\r\n").unwrap().unwrap().persistent);
}

#[test]
fn persistent_connection_awaits_next_request() {
    let s = next_state(ConnState::AwaitingRequest, ConnEvent::Parsed { persistent: true });
    let s = next_state(s, ConnEvent::Responded);
    assert_eq!(next_state(s, ConnEvent::Wrote), ConnState::AwaitingRequest);
    assert_eq!(next_state(ConnState::AwaitingRequest, ConnEvent::Blank), ConnState::AwaitingRequest);
    assert_eq!(next_state(ConnState::AwaitingRequest, ConnEvent::ParseFailed), ConnState::Closing);
}

#[test]
fn header_names_ignore_case() {
    let req = parse(b"GET /user-agent HTTP/1.1\r\nUser-Agent: x\r\n\r\n").unwrap().unwrap();
    assert_eq!(req.header(b"user-agent"), Some(b"x".to_vec()));
    assert_eq!(req.header(b"USER-AGENT"), Some(b"x".to_vec()));
    let resp = respond(&req);
    assert_eq!(resp.status, HttpCode::Okay);
    assert_eq!(resp.content, b"x".to_vec());
}

#[test]
fn later_header_wins() {
    let req = parse(b"GET / HTTP/1.1\r\nX-A: one\r\nx-a: two\r\n\r\n").unwrap().unwrap();
    assert_eq!(req.header(b"x-a"), Some(b"two".to_vec()));
}

#[test]
fn header_value_stops_at_next_separator() {
    let req = parse(b"GET / HTTP/1.1\r\nX-A: b: c\r\n\r\n").unwrap().unwrap();
    assert_eq!(req.header(b"x-a"), Some(b"b".to_vec()));
}

#[test]
fn missing_user_agent_is_bad_request() {
    let req = parse(b"GET /user-agent HTTP/1.1\r\n\r\n").unwrap().unwrap();
    let resp = respond(&req);
    assert_eq!(resp.status, HttpCode::BadRequest);
    assert_eq!(resp.content, b"Missing User-Agent header".to_vec());
}

#[test]
fn gzip_checked_before_deflate() {
    assert_eq!(select_encoding(b"deflate, gzip"), Some(Encoding::Gzip));
    assert_eq!(select_encoding(b"gzip"), Some(Encoding::Gzip));
    assert_eq!(select_encoding(b"deflate"), Some(Encoding::Deflate));
    assert_eq!(select_encoding(b"br"), None);
}

#[test]
fn deflate_compression() {
    let resp = Response { content: b"hello hello".to_vec(), ..Response::default() };
    let out = resp.compress(Some(b"deflate"));
    assert_eq!(out.content, deflate(b"hello hello"));
    assert_ne!(out.content, b"hello hello".to_vec());
    assert_eq!(out.content_encoding, Some(b"deflate".to_vec()));
}

#[test]
fn unknown_encoding_leaves_content() {
    let resp = Response { content: b"abc".to_vec(), ..Response::default() };
    let out = resp.compress(Some(b"br"));
    assert_eq!(out.content, b"abc".to_vec());
    assert_eq!(out.content_encoding, None);
    let resp = Response { content: b"abc".to_vec(), ..Response::default() };
    let out = resp.compress(None);
    assert_eq!(out.content, b"abc".to_vec());
}

#[test]
fn compression_failure_becomes_server_error() {
    let resp = Response { content: b"abc".to_vec(), ..Response::default() };
    let out = resp.apply_compression(Some(Encoding::Gzip), Err(b"boom".to_vec()));
    assert_eq!(out.status, HttpCode::InternalServerError);
    assert_eq!(out.content, b"Error compressing content: boom".to_vec());
    assert_eq!(out.content_encoding, None);
    let resp = Response {
        content_encoding: Some(b"gzip".to_vec()),
        content: b"abc".to_vec(),
        ..Response::default()
    };
    let out = resp.apply_compression(Some(Encoding::Deflate), Err(b"boom".to_vec()));
    assert_eq!(out.status, HttpCode::InternalServerError);
    assert_eq!(out.content_encoding, None);
    assert_eq!(out.content_type, b"text/plain".to_vec());
}

#[test]
fn deflate_then_gzip_picks_gzip_with_ok_status() {
    let resp = Response { content: b"abc".to_vec(), ..Response::default() };
    let out = resp.compress(Some(b"deflate, gzip"));
    assert_eq!(out.status, HttpCode::Okay);
    assert_eq!(out.content_encoding, Some(b"gzip".to_vec()));
    assert_eq!(out.content, gzip(b"abc"));
}

#[test]
fn empty_content_has_no_content_headers() {
    let resp = Response { connection: Some(b"keep-alive".to_vec()), ..Response::default() };
    assert_eq!(handle_response(resp), b"HTTP/1.1 200 OK\r\nConnection: keep-alive\r\n\r\n".to_vec());
}

#[test]
fn content_headers_carry_length() {
    let resp = Response {
        status: HttpCode::InternalServerError,
        content: b"0123456789ab".to_vec(),
        ..Response::default()
    };
    assert_eq!(
        handle_response(resp),
        b"HTTP/1.1 500 Internal Server Error\r\nContent-Type: text/plain\r\nContent-Length: 12\r\n\r\n0123456789ab"
            .to_vec()
    );
}

#[test]
fn connection_header_is_echoed() {
    let req = parse(b"GET / HTTP/1.1\r\nConnection: close\r\n\r\n").unwrap().unwrap();
    let resp = respond(&req);
    let bytes = handle_http_message(&req, resp);
    assert_eq!(bytes, b"HTTP/1.1 200 OK\r\nConnection: close\r\n\r\n".to_vec());
}

#[test]
fn status_texts() {
    assert_eq!(status_line(HttpCode::Okay), b"200 OK".to_vec());
    assert_eq!(status_line(HttpCode::Created), b"201 Created".to_vec());
    assert_eq!(status_line(HttpCode::BadRequest), b"400 Bad Request".to_vec());
    assert_eq!(status_line(HttpCode::NotFound), b"404 Not Found".to_vec());
    assert_eq!(status_line(HttpCode::InternalServerError), b"500 Internal Server Error".to_vec());
}

#[test]
fn decimal_digits() {
    assert_eq!(decimal_exec(0), b"0".to_vec());
    assert_eq!(decimal_exec(7), b"7".to_vec());
    assert_eq!(decimal_exec(1024), b"1024".to_vec());
    assert_eq!(decimal_exec(usize::MAX), usize::MAX.to_string().into_bytes());
}

#[test]
fn parse_errors() {
    assert_eq!(parse(b"").err(), Some(RequestError::ConnectionClosed));
    assert!(matches!(parse(b"\r\n"), Ok(None)));
    assert!(matches!(parse(b"   \r\n"), Ok(None)));
    assert_eq!(parse(b"GET\r\n\r\n").err(), Some(RequestError::MissingPath));
    assert_eq!(parse(b"GET /\r\n\r\n").err(), Some(RequestError::MissingVersion));
    assert_eq!(parse(b"GET / HTTP/1.1\r\nBroken\r\n\r\n").err(), Some(RequestError::InvalidHeader));
    assert_eq!(parse(b"GET / HTTP/1.1\r\nX-A:b\r\n\r\n").err(), Some(RequestError::InvalidHeader));
}

#[test]
fn error_messages() {
    assert_eq!(RequestError::ConnectionClosed.message(), "Connection closed by the client");
    assert_eq!(RequestError::MissingMethod.message(), "Missing method");
    assert_eq!(RequestError::MissingPath.message(), "Missing path");
    assert_eq!(RequestError::MissingVersion.message(), "Missing version");
    assert_eq!(RequestError::InvalidHeader.message(), "Invalid header");
}

#[test]
fn start_line_pieces() {
    let req = parse(b"  POST /a/b HTTP/1.1 extra\r\n\r\n").unwrap().unwrap();
    assert_eq!(req.method, b"POST".to_vec());
    assert_eq!(req.path, b"/a/b".to_vec());
    assert_eq!(req.version, b"HTTP/1.1".to_vec());
}

#[test]
fn stream_end_ends_headers() {
    let req = parse(b"GET / HTTP/1.1\r\nHost: h\r\n").unwrap().unwrap();
    assert_eq!(req.header(b"host"), Some(b"h".to_vec()));
    assert!(req.body.is_empty());
}

#[test]
fn content_length_reading() {
    let req = parse(b"POST /files/a HTTP/1.1\r\nContent-Length: +3\r\n\r\nabcdef").unwrap().unwrap();
    assert_eq!(req.body, b"abc".to_vec());
    let req = parse(b"POST /files/a HTTP/1.1\r\nContent-Length: x1\r\n\r\nabc").unwrap().unwrap();
    assert!(req.body.is_empty());
    let req = parse(b"POST /files/a HTTP/1.1\r\nContent-Length: 99999999999999999999999\r\n\r\nabc")
        .unwrap()
        .unwrap();
    assert!(req.body.is_empty());
}

#[test]
fn file_routes() {
    let req = parse(b"GET /files/a.txt HTTP/1.1\r\n\r\n").unwrap().unwrap();
    match handle_request(&req) {
        Dispatch::ReadFile(name) => assert_eq!(name, b"a.txt".to_vec()),
        _ => panic!("expected a read"),
    }
    let req = parse(b"PUT /files/a.txt HTTP/1.1\r\n\r\n").unwrap().unwrap();
    assert_eq!(respond(&req).status, HttpCode::NotFound);
    let found = handle_file_content(Some(b"data".to_vec()));
    assert_eq!(found.status, HttpCode::Okay);
    assert_eq!(found.content_type, b"application/octet-stream".to_vec());
    assert_eq!(found.content, b"data".to_vec());
    let missing = handle_file_content(None);
    assert_eq!(missing.status, HttpCode::NotFound);
    assert_eq!(missing.content, b"File not found".to_vec());
    assert_eq!(handle_file_upload(UploadOutcome::WriteFailed).content, b"Failed to write file".to_vec());
    assert_eq!(handle_file_upload(UploadOutcome::CreateFailed).status, HttpCode::InternalServerError);
}

#[test]
fn version_is_propagated() {
    let req = parse(b"GET /echo/hi HTTP/2.0\r\n\r\n").unwrap().unwrap();
    let resp = respond(&req);
    let bytes = handle_http_message(&req, resp);
    assert_eq!(bytes, b"HTTP/2.0 200 OK\r\nContent-Type: text/plain\r\nContent-Length: 2\r\n\r\nhi".to_vec());
}

#[test]
fn unterminated_headers_keep_the_reader_waiting() {
    // Nothing bounds the header block: a client that never sends the blank line
    // keeps the parser asking for more lines.
    let mut parser = RequestParser::new();
    assert_eq!(parser.feed_line(b"GET / HTTP/1.1\r\n"), Ok(ParseStep::NeedLine));
    for i in 0..1000 {
        let line = format!("X-H{i}: v\r\n");
        assert_eq!(parser.feed_line(line.as_bytes()), Ok(ParseStep::NeedLine));
    }
    assert_eq!(parser.feed_line(b"\r\n"), Ok(ParseStep::NeedBody(0)));
}
