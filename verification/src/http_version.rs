//! The closed set of HTTP version tokens the engine recognizes.
use crate::wire::ascii_seq;
use vstd::prelude::*;

verus! {

#[derive(Clone, Copy, Debug, PartialEq, Eq, Structural)]
pub enum HttpVersion {
    Http0_9,
    Http1_0,
    Http1_1,
    Http2,
    Http3,
}

/// The exact wire token of a version, as bytes.
pub open spec fn version_token(v: HttpVersion) -> Seq<u8> {
    match v {
        HttpVersion::Http0_9 => ascii_seq("HTTP/0.9"@),
        HttpVersion::Http1_0 => ascii_seq("HTTP/1.0"@),
        HttpVersion::Http1_1 => ascii_seq("HTTP/1.1"@),
        HttpVersion::Http2 => ascii_seq("HTTP/2"@),
        HttpVersion::Http3 => ascii_seq("HTTP/3"@),
    }
}

/// The version whose token is exactly `t`, if any. Matching is
/// case-sensitive: no normalization is applied.
pub open spec fn version_of(t: Seq<u8>) -> Option<HttpVersion> {
    if t == version_token(HttpVersion::Http0_9) {
        Some(HttpVersion::Http0_9)
    } else if t == version_token(HttpVersion::Http1_0) {
        Some(HttpVersion::Http1_0)
    } else if t == version_token(HttpVersion::Http1_1) {
        Some(HttpVersion::Http1_1)
    } else if t == version_token(HttpVersion::Http2) {
        Some(HttpVersion::Http2)
    } else if t == version_token(HttpVersion::Http3) {
        Some(HttpVersion::Http3)
    } else {
        None
    }
}

impl HttpVersion {
    /// The canonical textual token of this version.
    pub fn as_str(&self) -> (r: &'static str)
        ensures
            vstd::string::is_ascii(r),
            ascii_seq(r@) == version_token(*self),
    {
        match self {
            HttpVersion::Http0_9 => {
                proof {
                    reveal_strlit("HTTP/0.9");
                }
                "HTTP/0.9"
            },
            HttpVersion::Http1_0 => {
                proof {
                    reveal_strlit("HTTP/1.0");
                }
                "HTTP/1.0"
            },
            HttpVersion::Http1_1 => {
                proof {
                    reveal_strlit("HTTP/1.1");
                }
                "HTTP/1.1"
            },
            HttpVersion::Http2 => {
                proof {
                    reveal_strlit("HTTP/2");
                }
                "HTTP/2"
            },
            HttpVersion::Http3 => {
                proof {
                    reveal_strlit("HTTP/3");
                }
                "HTTP/3"
            },
        }
    }

    /// The canonical wire token of this version, as bytes.
    pub fn token_bytes(&self) -> (v: Vec<u8>)
        ensures
            v@ == version_token(*self),
    {
        crate::wire::ascii_bytes(self.as_str())
    }

    /// Parses a version from its exact wire token.
    pub fn from_token(t: &[u8]) -> (r: Option<HttpVersion>)
        ensures
            r == version_of(t@),
    {
        if crate::wire::bytes_eq(t, HttpVersion::Http0_9.token_bytes().as_slice()) {
            Some(HttpVersion::Http0_9)
        } else if crate::wire::bytes_eq(t, HttpVersion::Http1_0.token_bytes().as_slice()) {
            Some(HttpVersion::Http1_0)
        } else if crate::wire::bytes_eq(t, HttpVersion::Http1_1.token_bytes().as_slice()) {
            Some(HttpVersion::Http1_1)
        } else if crate::wire::bytes_eq(t, HttpVersion::Http2.token_bytes().as_slice()) {
            Some(HttpVersion::Http2)
        } else if crate::wire::bytes_eq(t, HttpVersion::Http3.token_bytes().as_slice()) {
            Some(HttpVersion::Http3)
        } else {
            None
        }
    }
}

/// Round trip through the wire grammar: parsing the canonical token of any
/// version yields that version back.
pub proof fn lemma_version_round_trip(v: HttpVersion)
    ensures
        version_of(version_token(v)) == Some(v),
{
    reveal_strlit("HTTP/0.9");
    reveal_strlit("HTTP/1.0");
    reveal_strlit("HTTP/1.1");
    reveal_strlit("HTTP/2");
    reveal_strlit("HTTP/3");
    match v {
        HttpVersion::Http0_9 => {
        },
        HttpVersion::Http1_0 => {
            assert(version_token(HttpVersion::Http1_0)[5] != version_token(HttpVersion::Http0_9)[5]);
        },
        HttpVersion::Http1_1 => {
            assert(version_token(HttpVersion::Http1_1)[5] != version_token(HttpVersion::Http0_9)[5]);
            assert(version_token(HttpVersion::Http1_1)[7] != version_token(HttpVersion::Http1_0)[7]);
        },
        HttpVersion::Http2 => {
            assert(version_token(HttpVersion::Http2).len() != version_token(
                HttpVersion::Http0_9,
            ).len());
        },
        HttpVersion::Http3 => {
            assert(version_token(HttpVersion::Http3).len() != version_token(
                HttpVersion::Http0_9,
            ).len());
            assert(version_token(HttpVersion::Http3)[5] != version_token(HttpVersion::Http2)[5]);
        },
    }
}

} // verus!
