//! The request parser: accepted shapes, extracted fields, and every way a
//! buffer can be malformed.
use http_engine::http_request::http_method::HttpMethod;
use http_engine::http_request::HttpRequest;
use http_engine::http_version::HttpVersion;

#[test]
fn parses_bare_request_line() {
    let req = HttpRequest::parse_request(b"GET / HTTP/1.1\r\n\r\n").unwrap();
    assert_eq!(req.method, HttpMethod::Get);
    assert_eq!(req.path, b"/".to_vec());
    assert_eq!(req.version, HttpVersion::Http1_1);
    assert!(req.headers.is_empty());
    assert!(req.body.is_empty());
}

#[test]
fn tolerates_bare_line_feeds() {
    let req = HttpRequest::parse_request(b"GET /abc HTTP/1.0\n\n").unwrap();
    assert_eq!(req.method, HttpMethod::Get);
    assert_eq!(req.path, b"/abc".to_vec());
    assert_eq!(req.version, HttpVersion::Http1_0);
}

#[test]
fn skips_leading_empty_lines() {
    let req = HttpRequest::parse_request(b"\r\n\n\r\nGET / HTTP/1.1\r\n\r\n").unwrap();
    assert_eq!(req.method, HttpMethod::Get);
}

#[test]
fn request_line_tolerates_extra_whitespace() {
    let req = HttpRequest::parse_request(b"GET   /a\t HTTP/1.1\r\n\r\n").unwrap();
    assert_eq!(req.method, HttpMethod::Get);
    assert_eq!(req.path, b"/a".to_vec());
    assert_eq!(req.version, HttpVersion::Http1_1);
}

#[test]
fn header_names_lowercased_and_values_trimmed() {
    let req =
        HttpRequest::parse_request(b"GET / HTTP/1.1\r\nHost:   example.com  \r\n\r\n").unwrap();
    assert_eq!(req.headers.len(), 1);
    assert_eq!(req.headers[0].0, b"host".to_vec());
    assert_eq!(req.headers[0].1, b"example.com".to_vec());
}

#[test]
fn header_lookup_is_case_insensitive() {
    let upper = HttpRequest::parse_request(b"GET / HTTP/1.1\r\nUser-Agent: x\r\n\r\n").unwrap();
    let lower = HttpRequest::parse_request(b"GET / HTTP/1.1\r\nuser-agent: x\r\n\r\n").unwrap();
    assert_eq!(upper.header_value(b"user-agent"), Some(b"x".to_vec()));
    assert_eq!(lower.header_value(b"user-agent"), Some(b"x".to_vec()));
    assert_eq!(upper.header_value(b"User-Agent"), Some(b"x".to_vec()));
    assert_eq!(upper.header_value(b"USER-AGENT"), Some(b"x".to_vec()));
    assert_eq!(upper.header_value(b"missing"), None);
}

#[test]
fn duplicate_header_last_occurrence_wins() {
    let req =
        HttpRequest::parse_request(b"GET / HTTP/1.1\r\nA: one\r\nB: x\r\nA: two\r\n\r\n").unwrap();
    assert_eq!(req.header_value(b"a"), Some(b"two".to_vec()));
    assert_eq!(req.header_value(b"b"), Some(b"x".to_vec()));
}

#[test]
fn body_is_the_literal_remainder() {
    let req = HttpRequest::parse_request(b"POST /x HTTP/1.1\r\nA: b\r\n\r\nhello\nworld\r\n")
        .unwrap();
    assert_eq!(req.body, b"hello\nworld\r\n".to_vec());
    let empty = HttpRequest::parse_request(b"POST /x HTTP/1.1\r\n\r\n").unwrap();
    assert!(empty.body.is_empty());
}

#[test]
fn rejects_empty_buffer() {
    assert!(HttpRequest::parse_request(b"").is_none());
    assert!(HttpRequest::parse_request(b"\r\n\r\n").is_none());
}

#[test]
fn rejects_wrong_token_count() {
    assert!(HttpRequest::parse_request(b"GET /\r\n\r\n").is_none());
    assert!(HttpRequest::parse_request(b"GET\r\n\r\n").is_none());
    assert!(HttpRequest::parse_request(b"GET / HTTP/1.1 extra\r\n\r\n").is_none());
}

#[test]
fn rejects_unknown_method_or_version() {
    assert!(HttpRequest::parse_request(b"get / HTTP/1.1\r\n\r\n").is_none());
    assert!(HttpRequest::parse_request(b"FETCH / HTTP/1.1\r\n\r\n").is_none());
    assert!(HttpRequest::parse_request(b"GET / HTTP/9.9\r\n\r\n").is_none());
    assert!(HttpRequest::parse_request(b"GET / http/1.1\r\n\r\n").is_none());
}

#[test]
fn rejects_header_line_without_colon() {
    assert!(HttpRequest::parse_request(b"GET / HTTP/1.1\r\nNoColon\r\n\r\n").is_none());
    assert!(HttpRequest::parse_request(b"GET / HTTP/1.1\r\nA: b\r\nbad\r\n\r\n").is_none());
}

#[test]
fn rejects_invalid_utf8_where_text_is_required() {
    assert!(HttpRequest::parse_request(b"G\xffT / HTTP/1.1\r\n\r\n").is_none());
    assert!(HttpRequest::parse_request(b"GET / HTTP/1.1\r\nna\xffme: x\r\n\r\n").is_none());
    // The body is raw bytes: invalid UTF-8 there is fine.
    let req = HttpRequest::parse_request(b"POST /x HTTP/1.1\r\n\r\n\xff\xfe").unwrap();
    assert_eq!(req.body, vec![0xff, 0xfe]);
}

#[test]
fn unterminated_header_section_means_empty_body() {
    let req = HttpRequest::parse_request(b"GET / HTTP/1.1\r\nA: b").unwrap();
    assert_eq!(req.header_value(b"a"), Some(b"b".to_vec()));
    assert!(req.body.is_empty());
}
