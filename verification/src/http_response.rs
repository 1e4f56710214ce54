//! Routing a parsed request to a response, and serializing responses.
//!
//! Routing is first-match over an ordered list of path rules: the root
//! path, the echo route, the user-agent route, the two file routes, and a
//! catch-all. The file routes need the surrounding process to touch the
//! filesystem, so for them the router answers with the file action to
//! perform; [`HttpResponse::file_read_response`] and
//! [`HttpResponse::file_write_response`] turn the action's result into the
//! final response.
pub mod http_status;

use crate::encoding::{encoded_body, encoding_token, selected_encoding, Encoding};
use crate::http_request::{header_get, HttpRequest, RequestModel};
use crate::http_version::{version_token, HttpVersion};
use crate::wire::{ascii_seq, dec_of, utf8_ok, CR, LF, SP};
use http_status::{status_token, HttpStatus};
use vstd::prelude::*;

verus! {

/// A response: the mathematical model. Headers carry the order they will
/// be written in.
#[verifier::ext_equal]
pub struct ResponseModel {
    pub version: HttpVersion,
    pub code: u16,
    pub headers: Seq<(Seq<u8>, Seq<u8>)>,
    pub body: Seq<u8>,
}

/// A response to be serialized: status line ingredients, headers in
/// emission order, and the body bytes.
pub struct HttpResponse {
    pub version: HttpVersion,
    pub status: HttpStatus,
    pub headers: Vec<(Vec<u8>, Vec<u8>)>,
    pub body: Vec<u8>,
}

impl View for HttpResponse {
    type V = ResponseModel;

    open spec fn view(&self) -> ResponseModel {
        ResponseModel {
            version: self.version,
            code: self.status.code,
            headers: Seq::new(self.headers@.len(), |i: int| (self.headers@[i].0@, self.headers@[i].1@)),
            body: self.body@,
        }
    }
}

/// A response with the given status and no headers and no body.
pub open spec fn empty_response(version: HttpVersion, code: u16) -> ResponseModel {
    ResponseModel { version, code, headers: Seq::empty(), body: Seq::empty() }
}

/// The `Content-Type: text/plain` header.
pub open spec fn ct_text() -> (Seq<u8>, Seq<u8>) {
    (ascii_seq("Content-Type"@), ascii_seq("text/plain"@))
}

/// The `Content-Type: application/octet-stream` header.
pub open spec fn ct_octet() -> (Seq<u8>, Seq<u8>) {
    (ascii_seq("Content-Type"@), ascii_seq("application/octet-stream"@))
}

/// The `Content-Length` header for the given body.
pub open spec fn cl_of(body: Seq<u8>) -> (Seq<u8>, Seq<u8>) {
    (ascii_seq("Content-Length"@), dec_of(body.len()))
}

/// The `Content-Encoding` header for the given encoding.
pub open spec fn ce_of(e: Encoding) -> (Seq<u8>, Seq<u8>) {
    (ascii_seq("Content-Encoding"@), encoding_token(e))
}

/// One serialized header line: `name: value` and CRLF.
pub open spec fn header_line(h: (Seq<u8>, Seq<u8>)) -> Seq<u8> {
    h.0 + ascii_seq(": "@) + h.1 + seq![CR, LF]
}

/// The serialized header block: every header line, in order.
pub open spec fn header_block(hs: Seq<(Seq<u8>, Seq<u8>)>) -> Seq<u8>
    decreases hs.len(),
{
    if hs.len() == 0 {
        Seq::empty()
    } else {
        header_block(hs.drop_last()) + header_line(hs.last())
    }
}

/// The exact wire bytes of a response: the status line, each header line
/// in order, a blank line, then the body bytes verbatim. No header is
/// synthesized here — whoever builds the response sets `Content-Length`.
pub open spec fn serialized_response(r: ResponseModel) -> Seq<u8> {
    version_token(r.version) + seq![SP] + status_token(r.code) + seq![CR, LF] + header_block(
        r.headers,
    ) + seq![CR, LF] + r.body
}

/// Serialization is a function of the response alone: composing the same
/// response twice yields byte-identical output.
pub proof fn lemma_serialize_deterministic(r: ResponseModel, b1: Seq<u8>, b2: Seq<u8>)
    requires
        b1 == serialized_response(r),
        b2 == serialized_response(r),
    ensures
        b1 == b2,
{
}

impl HttpResponse {
    /// The status carries one of the engine's code/phrase pairings.
    pub open spec fn wf(&self) -> bool {
        self.status.wf()
    }

    /// The fixed answer to a buffer that failed to parse: `400 Bad
    /// Request` under HTTP/1.1 — the real version may be unparseable — with
    /// no headers and no body.
    pub fn bad_request_response() -> (r: HttpResponse)
        ensures
            r@ == empty_response(HttpVersion::Http1_1, 400),
            r.wf(),
    {
        let r = HttpResponse {
            version: HttpVersion::Http1_1,
            status: HttpStatus::bad_request(),
            headers: Vec::new(),
            body: Vec::new(),
        };
        proof {
            assert(r@ =~= empty_response(HttpVersion::Http1_1, 400));
        }
        r
    }

    /// Serializes this response into its exact wire bytes.
    pub fn compose_response(&self) -> (v: Vec<u8>)
        requires
            self.wf(),
        ensures
            v@ == serialized_response(self@),
    {
        let mut v = self.version.token_bytes();
        v.push(SP);
        let st = self.status.token_bytes();
        crate::wire::push_all(&mut v, st.as_slice());
        v.push(CR);
        v.push(LF);
        let ghost lead = version_token(self@.version) + seq![SP] + status_token(self@.code) + seq![
            CR,
            LF,
        ];
        proof {
            assert(v@ =~= lead + header_block(self@.headers.take(0)));
        }
        let n = self.headers.len();
        let mut i: usize = 0;
        while i < n
            invariant
                0 <= i <= n,
                n == self.headers@.len(),
                self.status.wf(),
                v@ == lead + header_block(self@.headers.take(i as int)),
                lead == version_token(self@.version) + seq![SP] + status_token(self@.code) + seq![
                    CR,
                    LF,
                ],
            decreases n - i,
        {
            let pair = &self.headers[i];
            crate::wire::push_all(&mut v, pair.0.as_slice());
            proof {
                reveal_strlit(": ");
            }
            crate::wire::push_ascii(&mut v, ": ");
            crate::wire::push_all(&mut v, pair.1.as_slice());
            v.push(CR);
            v.push(LF);
            proof {
                let hs = self@.headers;
                assert(hs.take(i + 1).drop_last() =~= hs.take(i as int));
                assert(hs.take(i + 1).last() == hs[i as int]);
                assert(v@ =~= lead + header_block(hs.take(i + 1)));
            }
            i += 1;
        }
        proof {
            assert(self@.headers.take(n as int) =~= self@.headers);
        }
        v.push(CR);
        v.push(LF);
        crate::wire::push_all(&mut v, self.body.as_slice());
        proof {
            assert(v@ =~= serialized_response(self@));
        }
        v
    }
}

/// What the router asks of the surrounding process: a finished response,
/// or a file to read or write first. The file routes carry the path
/// remainder to resolve against the externally configured root directory.
pub enum RouteOutcome {
    Response(HttpResponse),
    ReadFile(Vec<u8>),
    WriteFile(Vec<u8>, Vec<u8>),
}

/// The model of a routing outcome.
#[verifier::ext_equal]
pub enum OutcomeModel {
    Response(ResponseModel),
    ReadFile(Seq<u8>),
    WriteFile(Seq<u8>, Seq<u8>),
}

impl View for RouteOutcome {
    type V = OutcomeModel;

    open spec fn view(&self) -> OutcomeModel {
        match self {
            RouteOutcome::Response(resp) => OutcomeModel::Response(resp@),
            RouteOutcome::ReadFile(p) => OutcomeModel::ReadFile(p@),
            RouteOutcome::WriteFile(p, b) => OutcomeModel::WriteFile(p@, b@),
        }
    }
}

/// The response of the echo route: the bytes after `/echo/`, compressed
/// with the encoding negotiated from the `accept-encoding` header, under
/// `Content-Type: text/plain` and the `Content-Length` of the encoded
/// bytes; `Content-Encoding` is named exactly when compression applied.
pub open spec fn echo_response_model(q: RequestModel) -> ResponseModel {
    let data = q.path.skip(6);
    let e = match header_get(q.headers, ascii_seq("accept-encoding"@)) {
        Some(h) => selected_encoding(h),
        None => Encoding::Identity,
    };
    let body = encoded_body(e, data);
    ResponseModel {
        version: q.version,
        code: 200,
        headers: if e == Encoding::Identity {
            seq![ct_text(), cl_of(body)]
        } else {
            seq![ce_of(e), ct_text(), cl_of(body)]
        },
        body,
    }
}

/// The response of the user-agent route: the `user-agent` header's value
/// as a text body, or `404` when the request has no such header.
pub open spec fn user_agent_response_model(q: RequestModel) -> ResponseModel {
    match header_get(q.headers, ascii_seq("user-agent"@)) {
        Some(v) => ResponseModel {
            version: q.version,
            code: 200,
            headers: seq![ct_text(), cl_of(v)],
            body: v,
        },
        None => empty_response(q.version, 404),
    }
}

/// First-match routing over the ordered rule list: the root path, the echo
/// route (whose remainder must be valid text), the user-agent route, the
/// file read route (GET) and the file write route (POST), then a `404`
/// catch-all. Routing never fails: every request yields an outcome.
pub open spec fn routed_outcome(q: RequestModel) -> OutcomeModel {
    if q.path == ascii_seq("/"@) {
        OutcomeModel::Response(empty_response(q.version, 200))
    } else if q.path.len() >= 6 && q.path.take(6) == ascii_seq("/echo/"@) && utf8_ok(
        q.path.skip(6),
    ) {
        OutcomeModel::Response(echo_response_model(q))
    } else if q.path == ascii_seq("/user-agent"@) {
        OutcomeModel::Response(user_agent_response_model(q))
    } else if q.method == crate::http_request::http_method::HttpMethod::Get && q.path.len() >= 7
        && q.path.take(7) == ascii_seq("/files/"@) {
        OutcomeModel::ReadFile(q.path.skip(7))
    } else if q.method == crate::http_request::http_method::HttpMethod::Post && q.path.len() >= 7
        && q.path.take(7) == ascii_seq("/files/"@) {
        OutcomeModel::WriteFile(q.path.skip(7), q.body)
    } else {
        OutcomeModel::Response(empty_response(q.version, 404))
    }
}

/// The router reads headers only through case-insensitive lookup: two
/// requests that agree on everything but their header carriers — say,
/// because names were cased differently on the wire — are routed
/// identically as soon as their `user-agent` and `accept-encoding` lookups
/// agree.
pub proof fn lemma_routing_reads_headers_by_lookup(q1: RequestModel, q2: RequestModel)
    requires
        q1.method == q2.method,
        q1.path == q2.path,
        q1.version == q2.version,
        q1.body == q2.body,
        header_get(q1.headers, ascii_seq("user-agent"@)) == header_get(
            q2.headers,
            ascii_seq("user-agent"@),
        ),
        header_get(q1.headers, ascii_seq("accept-encoding"@)) == header_get(
            q2.headers,
            ascii_seq("accept-encoding"@),
        ),
    ensures
        routed_outcome(q1) == routed_outcome(q2),
{
    assert(echo_response_model(q1) =~= echo_response_model(q2));
    assert(user_agent_response_model(q1) =~= user_agent_response_model(q2));
    assert(routed_outcome(q1) =~~= routed_outcome(q2));
}

/// How a file write ended: these become `201`, `500` and `404`.
#[derive(Clone, Copy, Debug, PartialEq, Eq, Structural)]
pub enum WriteOutcome {
    Written,
    Failed,
    NoRoot,
}

/// The status code each write outcome maps to.
pub open spec fn write_code(o: WriteOutcome) -> u16 {
    match o {
        WriteOutcome::Written => 201,
        WriteOutcome::Failed => 500,
        WriteOutcome::NoRoot => 404,
    }
}

impl HttpResponse {
    /// Routes a parsed request. The file routes answer with the file
    /// action to perform; every other rule answers with the finished
    /// response.
    pub fn request_response(request: &HttpRequest) -> (r: RouteOutcome)
        ensures
            r@ == routed_outcome(request@),
            r matches RouteOutcome::Response(resp) ==> resp.wf(),
    {
        let path = request.path.as_slice();
        proof {
            reveal_strlit("/");
        }
        let root = crate::wire::ascii_bytes("/");
        if crate::wire::bytes_eq(path, root.as_slice()) {
            let resp = HttpResponse {
                version: request.version,
                status: HttpStatus::ok(),
                headers: Vec::new(),
                body: Vec::new(),
            };
            proof {
                assert(resp@ =~= empty_response(request@.version, 200));
            }
            return RouteOutcome::Response(resp);
        }
        proof {
            reveal_strlit("/echo/");
        }
        let echo_prefix = crate::wire::ascii_bytes("/echo/");
        proof {
            assert(echo_prefix@.len() == 6);
        }
        if crate::wire::starts_with(path, echo_prefix.as_slice()) {
            let n = path.len();
            let data = vstd::slice::slice_subrange(path, 6, n);
            proof {
                assert(data@ =~= request@.path.skip(6));
            }
            if crate::wire::check_utf8(data) {
                proof {
                    reveal_strlit("accept-encoding");
                }
                let ae = crate::wire::ascii_bytes("accept-encoding");
                let enc: Encoding = match request.header_value(ae.as_slice()) {
                    Some(h) => {
                        proof {
                            crate::encoding::lemma_selected_encodable(h@);
                        }
                        crate::encoding::select_encoding(h.as_slice())
                    },
                    None => Encoding::Identity,
                };
                let body = enc.encode(data);
                let mut hs: Vec<(Vec<u8>, Vec<u8>)> = Vec::new();
                proof {
                    reveal_strlit("Content-Encoding");
                    reveal_strlit("Content-Type");
                    reveal_strlit("text/plain");
                    reveal_strlit("Content-Length");
                }
                if !matches!(enc, Encoding::Identity) {
                    hs.push((crate::wire::ascii_bytes("Content-Encoding"), enc.token_bytes()));
                }
                hs.push(
                    (crate::wire::ascii_bytes("Content-Type"), crate::wire::ascii_bytes(
                        "text/plain",
                    )),
                );
                let blen = body.len();
                hs.push((crate::wire::ascii_bytes("Content-Length"), crate::wire::dec_bytes(
                    blen as u64,
                )));
                let resp = HttpResponse {
                    version: request.version,
                    status: HttpStatus::ok(),
                    headers: hs,
                    body,
                };
                proof {
                    assert(resp@ =~~= echo_response_model(request@));
                }
                return RouteOutcome::Response(resp);
            }
        }
        proof {
            reveal_strlit("/user-agent");
        }
        let ua_path = crate::wire::ascii_bytes("/user-agent");
        if crate::wire::bytes_eq(path, ua_path.as_slice()) {
            proof {
                reveal_strlit("user-agent");
            }
            let ua_name = crate::wire::ascii_bytes("user-agent");
            let resp = match request.header_value(ua_name.as_slice()) {
                Some(v) => {
                    let mut hs: Vec<(Vec<u8>, Vec<u8>)> = Vec::new();
                    proof {
                        reveal_strlit("Content-Type");
                        reveal_strlit("text/plain");
                        reveal_strlit("Content-Length");
                    }
                    hs.push(
                        (crate::wire::ascii_bytes("Content-Type"), crate::wire::ascii_bytes(
                            "text/plain",
                        )),
                    );
                    let vlen = v.len();
                    hs.push((crate::wire::ascii_bytes("Content-Length"), crate::wire::dec_bytes(
                        vlen as u64,
                    )));
                    HttpResponse {
                        version: request.version,
                        status: HttpStatus::ok(),
                        headers: hs,
                        body: v,
                    }
                },
                None => HttpResponse {
                    version: request.version,
                    status: HttpStatus::not_found(),
                    headers: Vec::new(),
                    body: Vec::new(),
                },
            };
            proof {
                assert(resp@ =~~= user_agent_response_model(request@));
            }
            return RouteOutcome::Response(resp);
        }
        proof {
            reveal_strlit("/files/");
        }
        let files_prefix = crate::wire::ascii_bytes("/files/");
        proof {
            assert(files_prefix@.len() == 7);
        }
        if crate::wire::starts_with(path, files_prefix.as_slice()) {
            let n = path.len();
            if matches!(request.method, crate::http_request::http_method::HttpMethod::Get) {
                let rest = vstd::slice::slice_to_vec(vstd::slice::slice_subrange(path, 7, n));
                proof {
                    assert(rest@ =~= request@.path.skip(7));
                }
                return RouteOutcome::ReadFile(rest);
            }
            if matches!(request.method, crate::http_request::http_method::HttpMethod::Post) {
                let rest = vstd::slice::slice_to_vec(vstd::slice::slice_subrange(path, 7, n));
                let contents = vstd::slice::slice_to_vec(request.body.as_slice());
                proof {
                    assert(rest@ =~= request@.path.skip(7));
                }
                return RouteOutcome::WriteFile(rest, contents);
            }
        }
        let resp = HttpResponse {
            version: request.version,
            status: HttpStatus::not_found(),
            headers: Vec::new(),
            body: Vec::new(),
        };
        proof {
            assert(resp@ =~= empty_response(request@.version, 404));
        }
        RouteOutcome::Response(resp)
    }

    /// Finishes the file read route from what the surrounding process
    /// found: the file's bytes under `application/octet-stream` and their
    /// `Content-Length`, or `404` when there was no configured root, no
    /// such file, or no permission to read it.
    pub fn file_read_response(version: HttpVersion, data: Option<Vec<u8>>) -> (r: HttpResponse)
        ensures
            r.wf(),
            match data {
                Some(d) => r@ == ResponseModel {
                    version,
                    code: 200,
                    headers: seq![ct_octet(), cl_of(d@)],
                    body: d@,
                },
                None => r@ == empty_response(version, 404),
            },
    {
        match data {
            Some(d) => {
                let mut hs: Vec<(Vec<u8>, Vec<u8>)> = Vec::new();
                proof {
                    reveal_strlit("Content-Type");
                    reveal_strlit("application/octet-stream");
                    reveal_strlit("Content-Length");
                }
                hs.push(
                    (crate::wire::ascii_bytes("Content-Type"), crate::wire::ascii_bytes(
                        "application/octet-stream",
                    )),
                );
                let dlen = d.len();
                hs.push((crate::wire::ascii_bytes("Content-Length"), crate::wire::dec_bytes(
                    dlen as u64,
                )));
                let r = HttpResponse { version, status: HttpStatus::ok(), headers: hs, body: d };
                proof {
                    assert(r@ =~~= ResponseModel {
                        version,
                        code: 200,
                        headers: seq![ct_octet(), cl_of(r.body@)],
                        body: r.body@,
                    });
                }
                r
            },
            None => {
                let r = HttpResponse {
                    version,
                    status: HttpStatus::not_found(),
                    headers: Vec::new(),
                    body: Vec::new(),
                };
                proof {
                    assert(r@ =~= empty_response(version, 404));
                }
                r
            },
        }
    }

    /// Finishes the file write route from how the write ended: `201` on
    /// success, `500` on a failed write, `404` when no root directory was
    /// configured — each with no headers and no body.
    pub fn file_write_response(version: HttpVersion, outcome: WriteOutcome) -> (r: HttpResponse)
        ensures
            r.wf(),
            r@ == empty_response(version, write_code(outcome)),
    {
        let status = match outcome {
            WriteOutcome::Written => HttpStatus::created(),
            WriteOutcome::Failed => HttpStatus::internal_server_error(),
            WriteOutcome::NoRoot => HttpStatus::not_found(),
        };
        let r = HttpResponse { version, status, headers: Vec::new(), body: Vec::new() };
        proof {
            assert(r@ =~= empty_response(version, write_code(outcome)));
        }
        r
    }
}

} // verus!
