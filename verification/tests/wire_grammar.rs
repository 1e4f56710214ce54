//! Round trips and exact tokens of the wire grammar enumerations.
use http_engine::encoding::Encoding;
use http_engine::http_request::http_method::HttpMethod;
use http_engine::http_version::HttpVersion;

const METHODS: [HttpMethod; 9] = [
    HttpMethod::Get,
    HttpMethod::Head,
    HttpMethod::Post,
    HttpMethod::Put,
    HttpMethod::Delete,
    HttpMethod::Connect,
    HttpMethod::Options,
    HttpMethod::Trace,
    HttpMethod::Patch,
];

const VERSIONS: [HttpVersion; 5] = [
    HttpVersion::Http0_9,
    HttpVersion::Http1_0,
    HttpVersion::Http1_1,
    HttpVersion::Http2,
    HttpVersion::Http3,
];

#[test]
fn method_tokens_are_exact() {
    assert_eq!(HttpMethod::Get.as_str(), "GET");
    assert_eq!(HttpMethod::Head.as_str(), "HEAD");
    assert_eq!(HttpMethod::Post.as_str(), "POST");
    assert_eq!(HttpMethod::Put.as_str(), "PUT");
    assert_eq!(HttpMethod::Delete.as_str(), "DELETE");
    assert_eq!(HttpMethod::Connect.as_str(), "CONNECT");
    assert_eq!(HttpMethod::Options.as_str(), "OPTIONS");
    assert_eq!(HttpMethod::Trace.as_str(), "TRACE");
    assert_eq!(HttpMethod::Patch.as_str(), "PATCH");
}

#[test]
fn method_round_trip() {
    for m in METHODS {
        assert_eq!(HttpMethod::from_token(m.as_str().as_bytes()), Some(m));
        assert_eq!(HttpMethod::from_token(&m.token_bytes()), Some(m));
    }
}

#[test]
fn method_parse_is_case_sensitive() {
    assert_eq!(HttpMethod::from_token(b"get"), None);
    assert_eq!(HttpMethod::from_token(b"Get"), None);
    assert_eq!(HttpMethod::from_token(b""), None);
    assert_eq!(HttpMethod::from_token(b"GETS"), None);
    assert_eq!(HttpMethod::from_token(b"GE"), None);
}

#[test]
fn version_tokens_are_exact() {
    assert_eq!(HttpVersion::Http0_9.as_str(), "HTTP/0.9");
    assert_eq!(HttpVersion::Http1_0.as_str(), "HTTP/1.0");
    assert_eq!(HttpVersion::Http1_1.as_str(), "HTTP/1.1");
    assert_eq!(HttpVersion::Http2.as_str(), "HTTP/2");
    assert_eq!(HttpVersion::Http3.as_str(), "HTTP/3");
}

#[test]
fn version_round_trip() {
    for v in VERSIONS {
        assert_eq!(HttpVersion::from_token(v.as_str().as_bytes()), Some(v));
        assert_eq!(HttpVersion::from_token(&v.token_bytes()), Some(v));
    }
}

#[test]
fn version_parse_is_case_sensitive() {
    assert_eq!(HttpVersion::from_token(b"http/1.1"), None);
    assert_eq!(HttpVersion::from_token(b"HTTP/1.2"), None);
    assert_eq!(HttpVersion::from_token(b"HTTP/1"), None);
    assert_eq!(HttpVersion::from_token(b""), None);
}

#[test]
fn encoding_tokens_are_exact() {
    assert_eq!(Encoding::Gzip.as_str(), "gzip");
    assert_eq!(Encoding::Compress.as_str(), "compress");
    assert_eq!(Encoding::Deflate.as_str(), "deflate");
    assert_eq!(Encoding::Br.as_str(), "br");
    assert_eq!(Encoding::Zstd.as_str(), "zstd");
    assert_eq!(Encoding::Identity.as_str(), "identity");
}

#[test]
fn encoding_round_trip() {
    for e in [
        Encoding::Gzip,
        Encoding::Compress,
        Encoding::Deflate,
        Encoding::Br,
        Encoding::Zstd,
        Encoding::Identity,
    ] {
        assert_eq!(Encoding::from_token(e.as_str().as_bytes()), Some(e));
    }
    assert_eq!(Encoding::from_token(b"GZIP"), None);
    assert_eq!(Encoding::from_token(b"gzip "), None);
}
