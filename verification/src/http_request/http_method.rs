//! The closed set of HTTP method tokens the engine recognizes.
use crate::wire::ascii_seq;
use vstd::prelude::*;

verus! {

#[derive(Clone, Copy, Debug, PartialEq, Eq, Structural)]
pub enum HttpMethod {
    Get,
    Head,
    Post,
    Put,
    Delete,
    Connect,
    Options,
    Trace,
    Patch,
}

/// The exact wire token of a method, as bytes.
pub open spec fn method_token(m: HttpMethod) -> Seq<u8> {
    match m {
        HttpMethod::Get => ascii_seq("GET"@),
        HttpMethod::Head => ascii_seq("HEAD"@),
        HttpMethod::Post => ascii_seq("POST"@),
        HttpMethod::Put => ascii_seq("PUT"@),
        HttpMethod::Delete => ascii_seq("DELETE"@),
        HttpMethod::Connect => ascii_seq("CONNECT"@),
        HttpMethod::Options => ascii_seq("OPTIONS"@),
        HttpMethod::Trace => ascii_seq("TRACE"@),
        HttpMethod::Patch => ascii_seq("PATCH"@),
    }
}

/// The method whose token is exactly `t`, if any. Matching is
/// case-sensitive: no normalization is applied.
pub open spec fn method_of(t: Seq<u8>) -> Option<HttpMethod> {
    if t == method_token(HttpMethod::Get) {
        Some(HttpMethod::Get)
    } else if t == method_token(HttpMethod::Head) {
        Some(HttpMethod::Head)
    } else if t == method_token(HttpMethod::Post) {
        Some(HttpMethod::Post)
    } else if t == method_token(HttpMethod::Put) {
        Some(HttpMethod::Put)
    } else if t == method_token(HttpMethod::Delete) {
        Some(HttpMethod::Delete)
    } else if t == method_token(HttpMethod::Connect) {
        Some(HttpMethod::Connect)
    } else if t == method_token(HttpMethod::Options) {
        Some(HttpMethod::Options)
    } else if t == method_token(HttpMethod::Trace) {
        Some(HttpMethod::Trace)
    } else if t == method_token(HttpMethod::Patch) {
        Some(HttpMethod::Patch)
    } else {
        None
    }
}

impl HttpMethod {
    /// The canonical textual token of this method.
    pub fn as_str(&self) -> (r: &'static str)
        ensures
            vstd::string::is_ascii(r),
            ascii_seq(r@) == method_token(*self),
    {
        match self {
            HttpMethod::Get => {
                proof {
                    reveal_strlit("GET");
                }
                "GET"
            },
            HttpMethod::Head => {
                proof {
                    reveal_strlit("HEAD");
                }
                "HEAD"
            },
            HttpMethod::Post => {
                proof {
                    reveal_strlit("POST");
                }
                "POST"
            },
            HttpMethod::Put => {
                proof {
                    reveal_strlit("PUT");
                }
                "PUT"
            },
            HttpMethod::Delete => {
                proof {
                    reveal_strlit("DELETE");
                }
                "DELETE"
            },
            HttpMethod::Connect => {
                proof {
                    reveal_strlit("CONNECT");
                }
                "CONNECT"
            },
            HttpMethod::Options => {
                proof {
                    reveal_strlit("OPTIONS");
                }
                "OPTIONS"
            },
            HttpMethod::Trace => {
                proof {
                    reveal_strlit("TRACE");
                }
                "TRACE"
            },
            HttpMethod::Patch => {
                proof {
                    reveal_strlit("PATCH");
                }
                "PATCH"
            },
        }
    }

    /// The canonical wire token of this method, as bytes.
    pub fn token_bytes(&self) -> (v: Vec<u8>)
        ensures
            v@ == method_token(*self),
    {
        crate::wire::ascii_bytes(self.as_str())
    }

    /// Parses a method from its exact wire token.
    pub fn from_token(t: &[u8]) -> (r: Option<HttpMethod>)
        ensures
            r == method_of(t@),
    {
        if crate::wire::bytes_eq(t, HttpMethod::Get.token_bytes().as_slice()) {
            Some(HttpMethod::Get)
        } else if crate::wire::bytes_eq(t, HttpMethod::Head.token_bytes().as_slice()) {
            Some(HttpMethod::Head)
        } else if crate::wire::bytes_eq(t, HttpMethod::Post.token_bytes().as_slice()) {
            Some(HttpMethod::Post)
        } else if crate::wire::bytes_eq(t, HttpMethod::Put.token_bytes().as_slice()) {
            Some(HttpMethod::Put)
        } else if crate::wire::bytes_eq(t, HttpMethod::Delete.token_bytes().as_slice()) {
            Some(HttpMethod::Delete)
        } else if crate::wire::bytes_eq(t, HttpMethod::Connect.token_bytes().as_slice()) {
            Some(HttpMethod::Connect)
        } else if crate::wire::bytes_eq(t, HttpMethod::Options.token_bytes().as_slice()) {
            Some(HttpMethod::Options)
        } else if crate::wire::bytes_eq(t, HttpMethod::Trace.token_bytes().as_slice()) {
            Some(HttpMethod::Trace)
        } else if crate::wire::bytes_eq(t, HttpMethod::Patch.token_bytes().as_slice()) {
            Some(HttpMethod::Patch)
        } else {
            None
        }
    }
}

/// Round trip through the wire grammar: parsing the canonical token of any
/// method yields that method back.
pub proof fn lemma_method_round_trip(m: HttpMethod)
    ensures
        method_of(method_token(m)) == Some(m),
{
    reveal_strlit("GET");
    reveal_strlit("HEAD");
    reveal_strlit("POST");
    reveal_strlit("PUT");
    reveal_strlit("DELETE");
    reveal_strlit("CONNECT");
    reveal_strlit("OPTIONS");
    reveal_strlit("TRACE");
    reveal_strlit("PATCH");
    assert(method_token(HttpMethod::Get).len() == 3);
    assert(method_token(HttpMethod::Head).len() == 4);
    assert(method_token(HttpMethod::Post).len() == 4);
    assert(method_token(HttpMethod::Put).len() == 3);
    assert(method_token(HttpMethod::Delete).len() == 6);
    assert(method_token(HttpMethod::Connect).len() == 7);
    assert(method_token(HttpMethod::Options).len() == 7);
    assert(method_token(HttpMethod::Trace).len() == 5);
    assert(method_token(HttpMethod::Patch).len() == 5);
    match m {
        HttpMethod::Get => {
        },
        HttpMethod::Head => {
        },
        HttpMethod::Post => {
            assert(method_token(HttpMethod::Post)[0] != method_token(HttpMethod::Head)[0]);
        },
        HttpMethod::Put => {
            assert(method_token(HttpMethod::Put)[0] != method_token(HttpMethod::Get)[0]);
        },
        HttpMethod::Delete => {
        },
        HttpMethod::Connect => {
        },
        HttpMethod::Options => {
            assert(method_token(HttpMethod::Options)[0] != method_token(HttpMethod::Connect)[0]);
        },
        HttpMethod::Trace => {
        },
        HttpMethod::Patch => {
            assert(method_token(HttpMethod::Patch)[0] != method_token(HttpMethod::Trace)[0]);
        },
    }
}

} // verus!
