//! Parsing one connection's raw bytes into a structured request.
//!
//! The buffer is split on line feeds, with one trailing carriage return
//! stripped from each line. Leading empty lines are skipped; the first
//! non-empty line must split on whitespace into exactly a method token, a
//! path and a version token; the following lines up to the first empty line
//! are `name: value` headers; everything after that empty line is the body,
//! byte for byte. Any malformed part fails the whole parse: there is no
//! partially populated request.
pub mod http_method;

use crate::http_version::{version_of, HttpVersion};
use crate::wire::{
    lower_seq, split_at_byte, trim_ws, utf8_ok, ws_tokens, COLON, CR, LF,
};
use http_method::{method_of, HttpMethod};
use vstd::prelude::*;

verus! {

/// A parsed request: the mathematical model. Header names are lower-cased;
/// the mapping keeps the last occurrence of a name.
#[verifier::ext_equal]
pub struct RequestModel {
    pub method: HttpMethod,
    pub path: Seq<u8>,
    pub version: HttpVersion,
    pub headers: Map<Seq<u8>, Seq<u8>>,
    pub body: Seq<u8>,
}

/// A parsed request. The `headers` vector lists `(name, value)` pairs in
/// arrival order, names already lower-cased; a duplicated name may appear
/// more than once, and the mapping the request denotes keeps the last
/// occurrence — reads go through [`HttpRequest::header_value`].
pub struct HttpRequest {
    pub method: HttpMethod,
    pub path: Vec<u8>,
    pub version: HttpVersion,
    pub headers: Vec<(Vec<u8>, Vec<u8>)>,
    pub body: Vec<u8>,
}

/// The mapping denoted by header pairs in arrival order: every pair is
/// inserted in turn, so a later occurrence of a name wins.
pub open spec fn hmap(hs: Seq<(Vec<u8>, Vec<u8>)>) -> Map<Seq<u8>, Seq<u8>>
    decreases hs.len(),
{
    if hs.len() == 0 {
        Map::empty()
    } else {
        hmap(hs.drop_last()).insert(hs.last().0@, hs.last().1@)
    }
}

impl View for HttpRequest {
    type V = RequestModel;

    open spec fn view(&self) -> RequestModel {
        RequestModel {
            method: self.method,
            path: self.path@,
            version: self.version,
            headers: hmap(self.headers@),
            body: self.body@,
        }
    }
}

/// Appending a pair inserts it into the denoted mapping.
pub proof fn lemma_hmap_push(hs: Seq<(Vec<u8>, Vec<u8>)>, p: (Vec<u8>, Vec<u8>))
    ensures
        hmap(hs.push(p)) == hmap(hs).insert(p.0@, p.1@),
{
    assert(hs.push(p).drop_last() =~= hs);
    assert(hs.push(p).last() == p);
}

/// A name that occurs in no pair is not in the denoted mapping.
pub proof fn lemma_hmap_absent(hs: Seq<(Vec<u8>, Vec<u8>)>, k: Seq<u8>)
    requires
        forall|j: int| 0 <= j < hs.len() ==> hs[j].0@ != k,
    ensures
        !hmap(hs).contains_key(k),
    decreases hs.len(),
{
    if hs.len() > 0 {
        lemma_hmap_absent(hs.drop_last(), k);
    }
}

/// The last pair bearing a name decides its value in the denoted mapping.
pub proof fn lemma_hmap_last_match(hs: Seq<(Vec<u8>, Vec<u8>)>, i: int)
    requires
        0 <= i < hs.len(),
        forall|j: int| i < j < hs.len() ==> hs[j].0@ != hs[i].0@,
    ensures
        hmap(hs).contains_key(hs[i].0@),
        hmap(hs)[hs[i].0@] == hs[i].1@,
    decreases hs.len(),
{
    if i == hs.len() - 1 {
    } else {
        lemma_hmap_last_match(hs.drop_last(), i);
    }
}

/// One trailing carriage return stripped from a line.
pub open spec fn strip_cr(l: Seq<u8>) -> Seq<u8> {
    if l.len() > 0 && l.last() == CR {
        l.drop_last()
    } else {
        l
    }
}

/// The remaining buffer after skipping leading empty lines, or `None` when
/// only empty lines are left.
pub open spec fn skip_empty_lines(s: Seq<u8>) -> Option<Seq<u8>>
    decreases s.len(),
    via skip_empty_lines_dec
{
    let (raw, rest) = split_at_byte(s, LF);
    if strip_cr(raw).len() > 0 {
        Some(s)
    } else {
        match rest {
            Some(r) => skip_empty_lines(r),
            None => None,
        }
    }
}

#[via_fn]
proof fn skip_empty_lines_dec(s: Seq<u8>) {
    crate::wire::lemma_split_at_byte(s, LF);
}

/// Parses header lines from the stream `st` (already-consumed lines are
/// reflected in `acc`), until the first empty line or the end of the
/// buffer: each line must be valid UTF-8 and contain a colon; the name
/// before the first colon is lower-cased, the value after it is trimmed of
/// surrounding whitespace, and a duplicated name keeps its last value. On
/// success the result also carries the body: the raw bytes after the empty
/// line that ended the headers.
pub open spec fn parse_header_lines(st: Option<Seq<u8>>, acc: Map<Seq<u8>, Seq<u8>>) -> Option<
    (Map<Seq<u8>, Seq<u8>>, Seq<u8>),
>
    decreases
            (match st {
                Some(s) => s.len() + 1,
                None => 0,
            }),
    via parse_header_lines_dec
{
    match st {
        None => Some((acc, Seq::empty())),
        Some(s) => {
            let (raw, rest) = split_at_byte(s, LF);
            let line = strip_cr(raw);
            if line.len() == 0 {
                Some(
                    (
                        acc,
                        match rest {
                            Some(r) => r,
                            None => Seq::empty(),
                        },
                    ),
                )
            } else if !utf8_ok(line) {
                None
            } else {
                let (name, after) = split_at_byte(line, COLON);
                match after {
                    Some(value) => parse_header_lines(
                        rest,
                        acc.insert(lower_seq(name), trim_ws(value)),
                    ),
                    None => None,
                }
            }
        },
    }
}

#[via_fn]
proof fn parse_header_lines_dec(st: Option<Seq<u8>>, acc: Map<Seq<u8>, Seq<u8>>) {
    match st {
        Some(s) => {
            crate::wire::lemma_split_at_byte(s, LF);
        },
        None => {
        },
    }
}

/// The request denoted by a raw buffer, or `None` when the buffer is
/// malformed: no request line at all, a request line that is not valid
/// UTF-8 or does not hold exactly three whitespace-separated tokens, a
/// method or version token outside the wire grammar, or a bad header line.
pub open spec fn parsed_request(buf: Seq<u8>) -> Option<RequestModel> {
    match skip_empty_lines(buf) {
        None => None,
        Some(s) => {
            let (raw, rest) = split_at_byte(s, LF);
            let line = strip_cr(raw);
            if !utf8_ok(line) {
                None
            } else {
                let toks = ws_tokens(line);
                if toks.len() != 3 {
                    None
                } else {
                    match (method_of(toks[0]), version_of(toks[2])) {
                        (Some(m), Some(v)) => match parse_header_lines(rest, Map::empty()) {
                            Some(hb) => Some(
                                RequestModel {
                                    method: m,
                                    path: toks[1],
                                    version: v,
                                    headers: hb.0,
                                    body: hb.1,
                                },
                            ),
                            None => None,
                        },
                        _ => None,
                    }
                }
            }
        },
    }
}

/// The next line of the buffer, one trailing carriage return stripped, and
/// the stream that follows it: the bytes after the line feed, or `None`
/// when the line was unterminated.
fn next_line(s: &[u8]) -> (r: (&[u8], Option<&[u8]>))
    ensures
        ({
            let (raw, rest) = split_at_byte(s@, LF);
            r.0@ == strip_cr(raw) && (match (r.1, rest) {
                (Some(a), Some(b)) => a@ == b,
                (None, None) => true,
                _ => false,
            })
        }),
{
    let n = s.len();
    let (raw, after): (&[u8], Option<&[u8]>) = match crate::wire::find_byte(s, LF) {
        Some(i) => {
            proof {
                crate::wire::lemma_split_at_byte_found(s@, LF, i as int);
                assert(s@.take(i as int) =~= s@.subrange(0, i as int));
            }
            (
                vstd::slice::slice_subrange(s, 0, i),
                Some(vstd::slice::slice_subrange(s, i + 1, n)),
            )
        },
        None => {
            proof {
                crate::wire::lemma_split_at_byte_none(s@, LF);
            }
            (s, None)
        },
    };
    if raw.len() > 0 && raw[raw.len() - 1] == CR {
        proof {
            assert(raw@.subrange(0, raw@.len() - 1) =~= raw@.drop_last());
        }
        (vstd::slice::slice_subrange(raw, 0, raw.len() - 1), after)
    } else {
        (raw, after)
    }
}

impl HttpRequest {
    /// Parses the raw bytes of one connection into a request, or `None`
    /// when they are malformed in any of the ways [`parsed_request`] lists.
    pub fn parse_request(buf: &[u8]) -> (r: Option<HttpRequest>)
        ensures
            match r {
                Some(req) => parsed_request(buf@) == Some(req@),
                None => parsed_request(buf@) is None,
            },
    {
        // Skip leading empty lines.
        let mut rest: &[u8] = buf;
        loop
            invariant_except_break
                skip_empty_lines(buf@) == skip_empty_lines(rest@),
            ensures
                skip_empty_lines(buf@) == Some(rest@),
                strip_cr(split_at_byte(rest@, LF).0).len() > 0,
            decreases rest@.len(),
        {
            proof {
                crate::wire::lemma_split_at_byte(rest@, LF);
            }
            let (line, after) = next_line(rest);
            if line.len() > 0 {
                break ;
            }
            match after {
                Some(a) => {
                    rest = a;
                },
                None => {
                    proof {
                        assert(skip_empty_lines(rest@) is None);
                    }
                    return None;
                },
            }
        }
        // The request line.
        let (line, after) = next_line(rest);
        if !crate::wire::check_utf8(line) {
            return None;
        }
        let mut toks = crate::wire::split_tokens(line);
        if toks.len() != 3 {
            return None;
        }
        let ghost toks_g = ws_tokens(line@);
        let t2 = toks.pop().unwrap();
        let t1 = toks.pop().unwrap();
        let t0 = toks.pop().unwrap();
        proof {
            assert(t0@ == toks_g[0] && t1@ == toks_g[1] && t2@ == toks_g[2]);
        }
        let method = match HttpMethod::from_token(t0.as_slice()) {
            Some(m) => m,
            None => {
                return None;
            },
        };
        let version = match HttpVersion::from_token(t2.as_slice()) {
            Some(v) => v,
            None => {
                return None;
            },
        };
        // Header lines, then the body.
        let ghost target = parse_header_lines(
            match after {
                Some(a) => Some(a@),
                None => None,
            },
            Map::empty(),
        );
        proof {
            let (raw, rest2) = split_at_byte(rest@, LF);
            assert((match after {
                Some(a) => Some(a@),
                None => None::<Seq<u8>>,
            }) == rest2);
            assert(parsed_request(buf@) == (match target {
                Some(hb) => Some(
                    RequestModel {
                        method: method,
                        path: t1@,
                        version: version,
                        headers: hb.0,
                        body: hb.1,
                    },
                ),
                None => None::<RequestModel>,
            }));
        }
        let mut headers: Vec<(Vec<u8>, Vec<u8>)> = Vec::new();
        let mut stream: Option<&[u8]> = after;
        let body: Vec<u8>;
        loop
            invariant_except_break
                parse_header_lines(
                    match stream {
                        Some(s) => Some(s@),
                        None => None,
                    },
                    hmap(headers@),
                ) == target,
                parsed_request(buf@) == (match target {
                    Some(hb) => Some(
                        RequestModel {
                            method: method,
                            path: t1@,
                            version: version,
                            headers: hb.0,
                            body: hb.1,
                        },
                    ),
                    None => None::<RequestModel>,
                }),
            ensures
                target == Some((hmap(headers@), body@)),
                parsed_request(buf@) == Some(
                    RequestModel {
                        method: method,
                        path: t1@,
                        version: version,
                        headers: hmap(headers@),
                        body: body@,
                    },
                ),
            decreases
                    (match stream {
                        Some(s) => s@.len() + 1,
                        None => 0,
                    }),
        {
            match stream {
                None => {
                    body = Vec::new();
                    proof {
                        assert(body@ =~= Seq::<u8>::empty());
                    }
                    break ;
                },
                Some(s) => {
                    proof {
                        crate::wire::lemma_split_at_byte(s@, LF);
                    }
                    let (line, next) = next_line(s);
                    if line.len() == 0 {
                        body = match next {
                            Some(b) => vstd::slice::slice_to_vec(b),
                            None => Vec::new(),
                        };
                        proof {
                            if next is None {
                                assert(body@ =~= Seq::<u8>::empty());
                            }
                        }
                        break ;
                    }
                    if !crate::wire::check_utf8(line) {
                        proof {
                            assert(target is None);
                        }
                        return None;
                    }
                    let ln = line.len();
                    match crate::wire::find_byte(line, COLON) {
                        Some(ci) => {
                            proof {
                                crate::wire::lemma_split_at_byte_found(line@, COLON, ci as int);
                                assert(line@.take(ci as int) =~= line@.subrange(0, ci as int));
                            }
                            let name = crate::wire::lower_vec(
                                vstd::slice::slice_subrange(line, 0, ci),
                            );
                            let value = crate::wire::trim_vec(
                                vstd::slice::slice_subrange(line, ci + 1, ln),
                            );
                            proof {
                                lemma_hmap_push(headers@, (name, value));
                            }
                            headers.push((name, value));
                            stream = next;
                        },
                        None => {
                            proof {
                                crate::wire::lemma_split_at_byte_none(line@, COLON);
                                assert(target is None);
                            }
                            return None;
                        },
                    }
                },
            }
        }
        let req = HttpRequest { method, path: t1, version, headers, body };
        proof {
            assert(req@ =~= RequestModel {
                method: method,
                path: t1@,
                version: version,
                headers: hmap(headers@),
                body: body@,
            });
        }
        Some(req)
    }

    /// Looks the name up in the request's headers, case-insensitively: the
    /// name is lower-cased and the value of its last occurrence, if any, is
    /// returned.
    pub fn header_value(&self, name: &[u8]) -> (r: Option<Vec<u8>>)
        ensures
            match r {
                Some(v) => header_get(self@.headers, name@) == Some(v@),
                None => header_get(self@.headers, name@) is None,
            },
    {
        let key = crate::wire::lower_vec(name);
        let n = self.headers.len();
        let mut i: usize = n;
        while i > 0
            invariant
                0 <= i <= self.headers@.len(),
                n == self.headers@.len(),
                key@ == lower_seq(name@),
                forall|j: int| i <= j < n ==> self.headers@[j].0@ != key@,
            decreases i,
        {
            i -= 1;
            let pair = &self.headers[i];
            if crate::wire::bytes_eq(pair.0.as_slice(), key.as_slice()) {
                proof {
                    lemma_hmap_last_match(self.headers@, i as int);
                }
                return Some(vstd::slice::slice_to_vec(pair.1.as_slice()));
            }
        }
        proof {
            lemma_hmap_absent(self.headers@, key@);
        }
        None
    }
}

/// Looking a name up in a header mapping: the name is folded to lower case
/// first, so lookups are case-insensitive.
pub open spec fn header_get(m: Map<Seq<u8>, Seq<u8>>, name: Seq<u8>) -> Option<Seq<u8>> {
    if m.contains_key(lower_seq(name)) {
        Some(m[lower_seq(name)])
    } else {
        None
    }
}

/// Lookups are case-insensitive: two names that agree up to ASCII case are
/// answered identically by any header mapping.
pub proof fn lemma_lookup_case_insensitive(m: Map<Seq<u8>, Seq<u8>>, a: Seq<u8>, b: Seq<u8>)
    requires
        lower_seq(a) == lower_seq(b),
    ensures
        header_get(m, a) == header_get(m, b),
{
}

/// A malformed request line fails the whole parse: when the first
/// non-empty line does not split into exactly three tokens, or its method
/// or version token is outside the wire grammar — or no request line
/// exists at all — no request is produced.
pub proof fn lemma_bad_request_line_rejected(buf: Seq<u8>)
    ensures
        skip_empty_lines(buf) is None ==> parsed_request(buf) is None,
        ({
            match skip_empty_lines(buf) {
                Some(s) => {
                    let line = strip_cr(split_at_byte(s, LF).0);
                    let toks = ws_tokens(line);
                    (toks.len() != 3 || method_of(toks[0]) is None || version_of(toks[2]) is None)
                        ==> parsed_request(buf) is None
                },
                None => true,
            }
        }),
{
}

/// A header line without a colon fails the whole parse: once the header
/// section reaches such a line, no request is produced.
pub proof fn lemma_colonless_header_rejected(st: Option<Seq<u8>>, acc: Map<Seq<u8>, Seq<u8>>)
    requires
        st matches Some(s) && ({
            let line = strip_cr(split_at_byte(s, LF).0);
            line.len() > 0 && (forall|k: int| 0 <= k < line.len() ==> line[k] != COLON)
        }),
    ensures
        parse_header_lines(st, acc) is None,
{
    let s = st.unwrap();
    let line = strip_cr(split_at_byte(s, LF).0);
    crate::wire::lemma_split_at_byte_none(line, COLON);
}

/// Every name in a parsed header mapping is already lower-cased — which is
/// why [`header_get`]'s case folding finds it whatever the casing on the
/// wire or in the query.
pub proof fn lemma_parsed_header_names_lowercase(st: Option<Seq<u8>>, acc: Map<Seq<u8>, Seq<u8>>)
    requires
        forall|k: Seq<u8>| acc.contains_key(k) ==> k == lower_seq(k),
    ensures
        parse_header_lines(st, acc) matches Some(hb) ==> (forall|k: Seq<u8>|
            hb.0.contains_key(k) ==> k == lower_seq(k)),
    decreases
            (match st {
                Some(s) => s.len() + 1,
                None => 0,
            }),
{
    match st {
        None => {
        },
        Some(s) => {
            crate::wire::lemma_split_at_byte(s, LF);
            let (raw, rest) = split_at_byte(s, LF);
            let line = strip_cr(raw);
            if line.len() == 0 {
            } else if !utf8_ok(line) {
            } else {
                let (name, after) = split_at_byte(line, COLON);
                match after {
                    Some(value) => {
                        crate::wire::lemma_lower_idem(name);
                        lemma_parsed_header_names_lowercase(
                            rest,
                            acc.insert(lower_seq(name), trim_ws(value)),
                        );
                    },
                    None => {
                    },
                }
            }
        },
    }
}

/// Every name in the header mapping of a parsed request is lower-cased.
pub proof fn lemma_request_header_names_lowercase(buf: Seq<u8>)
    ensures
        parsed_request(buf) matches Some(q) ==> (forall|k: Seq<u8>|
            q.headers.contains_key(k) ==> k == lower_seq(k)),
{
    match skip_empty_lines(buf) {
        Some(s) => {
            let (raw, rest) = split_at_byte(s, LF);
            lemma_parsed_header_names_lowercase(rest, Map::empty());
        },
        None => {
        },
    }
}

} // verus!
