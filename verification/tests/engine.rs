//! Content negotiation, routing, serialization, and end-to-end scenarios.
use http_engine::encoding::{select_encoding, Encoding};
use http_engine::http_request::HttpRequest;
use http_engine::http_response::{HttpResponse, RouteOutcome, WriteOutcome};
use http_engine::http_response::http_status::HttpStatus;
use http_engine::http_version::HttpVersion;
use std::io::Read;

/// Runs one connection's bytes through the engine; file routes are served
/// from the given in-memory store, `None` standing for "no root directory
/// configured".
fn respond(buf: &[u8], store: Option<&mut Vec<(Vec<u8>, Vec<u8>)>>) -> Vec<u8> {
    let response = match HttpRequest::parse_request(buf) {
        None => HttpResponse::bad_request_response(),
        Some(req) => match HttpResponse::request_response(&req) {
            RouteOutcome::Response(resp) => resp,
            RouteOutcome::ReadFile(path) => {
                let data = store.and_then(|s| {
                    s.iter().find(|(p, _)| *p == path).map(|(_, d)| d.clone())
                });
                HttpResponse::file_read_response(req.version, data)
            },
            RouteOutcome::WriteFile(path, contents) => {
                let outcome = match store {
                    None => WriteOutcome::NoRoot,
                    Some(s) => {
                        s.retain(|(p, _)| *p != path);
                        s.push((path, contents));
                        WriteOutcome::Written
                    },
                };
                HttpResponse::file_write_response(req.version, outcome)
            },
        },
    };
    response.compose_response()
}

fn gunzip(data: &[u8]) -> Vec<u8> {
    let mut out = Vec::new();
    flate2::bufread::GzDecoder::new(data).read_to_end(&mut out).unwrap();
    out
}

fn inflate(data: &[u8]) -> Vec<u8> {
    let mut out = Vec::new();
    flate2::bufread::ZlibDecoder::new(data).read_to_end(&mut out).unwrap();
    out
}

#[test]
fn selection_takes_first_supported_not_first_listed() {
    assert_eq!(select_encoding(b"identity, gzip"), Encoding::Gzip);
    assert_eq!(select_encoding(b"br, gzip"), Encoding::Gzip);
    assert_eq!(select_encoding(b"zstd, compress, deflate, gzip"), Encoding::Deflate);
}

#[test]
fn selection_defaults_to_identity() {
    assert_eq!(select_encoding(b""), Encoding::Identity);
    assert_eq!(select_encoding(b"nope, also-nope"), Encoding::Identity);
    assert_eq!(select_encoding(b"identity"), Encoding::Identity);
    assert_eq!(select_encoding(b"gzip;q=1"), Encoding::Identity);
}

#[test]
fn selection_trims_whitespace() {
    assert_eq!(select_encoding(b"  gzip  "), Encoding::Gzip);
    assert_eq!(select_encoding(b" br ,\tdeflate "), Encoding::Deflate);
}

#[test]
fn encode_identity_keeps_bytes() {
    assert_eq!(Encoding::Identity.encode(b"abc"), b"abc".to_vec());
}

#[test]
fn encode_gzip_and_deflate_round_trip() {
    let gz = Encoding::Gzip.encode(b"hello hello hello");
    assert_eq!(gunzip(&gz), b"hello hello hello".to_vec());
    let zz = Encoding::Deflate.encode(b"hello hello hello");
    assert_eq!(inflate(&zz), b"hello hello hello".to_vec());
}

#[test]
fn scenario_root() {
    assert_eq!(respond(b"GET / HTTP/1.1\r\n\r\n", None), b"HTTP/1.1 200 OK\r\n\r\n".to_vec());
}

#[test]
fn scenario_echo() {
    assert_eq!(
        respond(b"GET /echo/abc HTTP/1.1\r\n\r\n", None),
        b"HTTP/1.1 200 OK\r\nContent-Type: text/plain\r\nContent-Length: 3\r\n\r\nabc".to_vec()
    );
}

#[test]
fn scenario_echo_gzip() {
    let out = respond(b"GET /echo/abc HTTP/1.1\r\nAccept-Encoding: gzip\r\n\r\n", None);
    let head_end = out.windows(4).position(|w| w == b"\r\n\r\n").unwrap();
    let head = std::str::from_utf8(&out[..head_end + 2]).unwrap();
    assert!(head.starts_with("HTTP/1.1 200 OK\r\n"));
    assert!(head.contains("Content-Encoding: gzip\r\n"));
    assert!(head.contains("Content-Type: text/plain\r\n"));
    let body = &out[head_end + 4..];
    assert!(head.contains(&format!("Content-Length: {}\r\n", body.len())));
    assert_eq!(gunzip(body), b"abc".to_vec());
}

#[test]
fn scenario_echo_deflate() {
    let out = respond(b"GET /echo/xyz HTTP/1.1\r\nAccept-Encoding: deflate\r\n\r\n", None);
    let head_end = out.windows(4).position(|w| w == b"\r\n\r\n").unwrap();
    let head = std::str::from_utf8(&out[..head_end + 2]).unwrap();
    assert!(head.contains("Content-Encoding: deflate\r\n"));
    assert_eq!(inflate(&out[head_end + 4..]), b"xyz".to_vec());
}

#[test]
fn scenario_user_agent() {
    assert_eq!(
        respond(b"GET /user-agent HTTP/1.1\r\nUser-Agent: test-client\r\n\r\n", None),
        b"HTTP/1.1 200 OK\r\nContent-Type: text/plain\r\nContent-Length: 11\r\n\r\ntest-client"
            .to_vec()
    );
}

#[test]
fn user_agent_lookup_ignores_header_casing() {
    let upper = respond(b"GET /user-agent HTTP/1.1\r\nUser-Agent: x\r\n\r\n", None);
    let lower = respond(b"GET /user-agent HTTP/1.1\r\nuser-agent: x\r\n\r\n", None);
    assert_eq!(upper, lower);
}

#[test]
fn user_agent_missing_is_not_found() {
    assert_eq!(
        respond(b"GET /user-agent HTTP/1.1\r\n\r\n", None),
        b"HTTP/1.1 404 Not Found\r\n\r\n".to_vec()
    );
}

#[test]
fn scenario_file_write_then_read() {
    let mut store: Vec<(Vec<u8>, Vec<u8>)> = Vec::new();
    let posted = respond(
        b"POST /files/note.txt HTTP/1.1\r\nContent-Length: 5\r\n\r\nhello",
        Some(&mut store),
    );
    assert_eq!(posted, b"HTTP/1.1 201 Created\r\n\r\n".to_vec());
    let got = respond(b"GET /files/note.txt HTTP/1.1\r\n\r\n", Some(&mut store));
    assert_eq!(
        got,
        b"HTTP/1.1 200 OK\r\nContent-Type: application/octet-stream\r\nContent-Length: 5\r\n\r\nhello"
            .to_vec()
    );
}

#[test]
fn file_read_missing_is_not_found() {
    let mut store: Vec<(Vec<u8>, Vec<u8>)> = Vec::new();
    assert_eq!(
        respond(b"GET /files/absent HTTP/1.1\r\n\r\n", Some(&mut store)),
        b"HTTP/1.1 404 Not Found\r\n\r\n".to_vec()
    );
    assert_eq!(
        respond(b"GET /files/absent HTTP/1.1\r\n\r\n", None),
        b"HTTP/1.1 404 Not Found\r\n\r\n".to_vec()
    );
}

#[test]
fn file_write_without_root_is_not_found_and_failure_is_server_error() {
    assert_eq!(
        respond(b"POST /files/x HTTP/1.1\r\n\r\ny", None),
        b"HTTP/1.1 404 Not Found\r\n\r\n".to_vec()
    );
    let failed = HttpResponse::file_write_response(HttpVersion::Http1_1, WriteOutcome::Failed);
    assert_eq!(
        failed.compose_response(),
        b"HTTP/1.1 500 Internal Server Error\r\n\r\n".to_vec()
    );
}

#[test]
fn scenario_malformed_is_bad_request() {
    assert_eq!(respond(b"", None), b"HTTP/1.1 400 Bad Request\r\n\r\n".to_vec());
    assert_eq!(respond(b"GET /\r\n\r\n", None), b"HTTP/1.1 400 Bad Request\r\n\r\n".to_vec());
    assert_eq!(
        respond(b"GET / HTTP/1.1\r\nbad-header\r\n\r\n", None),
        b"HTTP/1.1 400 Bad Request\r\n\r\n".to_vec()
    );
}

#[test]
fn unmatched_paths_fall_through_to_not_found() {
    assert_eq!(
        respond(b"GET /nothing HTTP/1.1\r\n\r\n", None),
        b"HTTP/1.1 404 Not Found\r\n\r\n".to_vec()
    );
    // `/echo` without the trailing slash is not the echo route.
    assert_eq!(
        respond(b"GET /echo HTTP/1.1\r\n\r\n", None),
        b"HTTP/1.1 404 Not Found\r\n\r\n".to_vec()
    );
    // The file routes answer to GET and POST alone.
    assert_eq!(
        respond(b"PUT /files/x HTTP/1.1\r\n\r\n", None),
        b"HTTP/1.1 404 Not Found\r\n\r\n".to_vec()
    );
}

#[test]
fn response_carries_the_request_version() {
    assert_eq!(respond(b"GET / HTTP/1.0\r\n\r\n", None), b"HTTP/1.0 200 OK\r\n\r\n".to_vec());
    assert_eq!(respond(b"GET / HTTP/2\r\n\r\n", None), b"HTTP/2 200 OK\r\n\r\n".to_vec());
}

#[test]
fn serialization_is_deterministic() {
    let req = HttpRequest::parse_request(b"GET /echo/repeat HTTP/1.1\r\n\r\n").unwrap();
    match HttpResponse::request_response(&req) {
        RouteOutcome::Response(resp) => {
            assert_eq!(resp.compose_response(), resp.compose_response());
        },
        _ => panic!("echo must answer directly"),
    }
}

#[test]
fn content_length_is_decimal_of_body_length() {
    let out = respond(b"GET /echo/0123456789 HTTP/1.1\r\n\r\n", None);
    let head = String::from_utf8(out.clone()).unwrap();
    assert!(head.contains("Content-Length: 10\r\n"));
    let long = respond(b"GET /user-agent HTTP/1.1\r\nUser-Agent: aaaaaaaaaaaaaaaaaaaaaaaaaaaaaaaaaaaaaaaaaaaaaaaaaaaaaaaaaaaaaaaaaaaaaaaaaaaaaaaaaaaaaaaaaaaaaaaaaaaa\r\n\r\n", None);
    assert!(String::from_utf8(long).unwrap().contains("Content-Length: 100\r\n"));
}

#[test]
fn file_route_with_empty_remainder_reads_nothing() {
    let mut store: Vec<(Vec<u8>, Vec<u8>)> = Vec::new();
    assert_eq!(
        respond(b"GET /files/ HTTP/1.1\r\n\r\n", Some(&mut store)),
        b"HTTP/1.1 404 Not Found\r\n\r\n".to_vec()
    );
}

#[test]
fn status_codes_pair_with_their_phrases() {
    let pairs = [
        (HttpStatus::ok(), 200u16, "OK"),
        (HttpStatus::created(), 201, "Created"),
        (HttpStatus::bad_request(), 400, "Bad Request"),
        (HttpStatus::not_found(), 404, "Not Found"),
        (HttpStatus::internal_server_error(), 500, "Internal Server Error"),
    ];
    for (status, code, phrase) in pairs {
        assert_eq!(status.code, code);
        assert_eq!(status.message, phrase);
        assert_eq!(status.token_bytes(), format!("{code} {phrase}").into_bytes());
    }
}
