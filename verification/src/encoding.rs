//! Content encodings: the wire vocabulary, the negotiation over an
//! `accept-encoding` header value, and compression of response bodies.
use crate::wire::{ascii_seq, split_at_byte, trim_ws, COMMA};
use vstd::prelude::*;

verus! {

#[derive(Clone, Copy, Debug, Eq, PartialEq, Structural)]
pub enum Encoding {
    Gzip,
    Compress,
    Deflate,
    Br,
    Zstd,
    Identity,
}

/// The exact wire token of an encoding, as bytes.
pub open spec fn encoding_token(e: Encoding) -> Seq<u8> {
    match e {
        Encoding::Gzip => ascii_seq("gzip"@),
        Encoding::Compress => ascii_seq("compress"@),
        Encoding::Deflate => ascii_seq("deflate"@),
        Encoding::Br => ascii_seq("br"@),
        Encoding::Zstd => ascii_seq("zstd"@),
        Encoding::Identity => ascii_seq("identity"@),
    }
}

/// The encoding whose token is exactly `t`, if any.
pub open spec fn encoding_of(t: Seq<u8>) -> Option<Encoding> {
    if t == encoding_token(Encoding::Gzip) {
        Some(Encoding::Gzip)
    } else if t == encoding_token(Encoding::Compress) {
        Some(Encoding::Compress)
    } else if t == encoding_token(Encoding::Deflate) {
        Some(Encoding::Deflate)
    } else if t == encoding_token(Encoding::Br) {
        Some(Encoding::Br)
    } else if t == encoding_token(Encoding::Zstd) {
        Some(Encoding::Zstd)
    } else if t == encoding_token(Encoding::Identity) {
        Some(Encoding::Identity)
    } else {
        None
    }
}

/// The bytes that flate2's gzip encoder produces for `data` at the default
/// compression level.
pub uninterp spec fn gzip_of(data: Seq<u8>) -> Seq<u8>;

/// The bytes that flate2's zlib encoder produces for `data` at the default
/// compression level.
pub uninterp spec fn zlib_of(data: Seq<u8>) -> Seq<u8>;

/// The body produced when `data` is compressed with `e`; `identity` and the
/// unsupported encodings leave the bytes as they are.
pub open spec fn encoded_body(e: Encoding, data: Seq<u8>) -> Seq<u8> {
    match e {
        Encoding::Gzip => gzip_of(data),
        Encoding::Deflate => zlib_of(data),
        _ => data,
    }
}

/// Relies on flate2's `bufread::GzEncoder` over an in-memory slice: with the
/// default (pure Rust) backend the output is a function of the input bytes
/// and the compression level alone — the gzip header it writes has a zero
/// mtime and the fixed operating-system byte 255. Reading from the encoder
/// cannot fail because the underlying reader is a slice.
#[verifier::external_body]
fn gzip_bytes(data: &[u8]) -> (r: Vec<u8>)
    ensures
        r@ == gzip_of(data@),
{
    let mut encoder = flate2::bufread::GzEncoder::new(data, flate2::Compression::default());
    let mut buffer = Vec::new();
    std::io::Read::read_to_end(&mut encoder, &mut buffer).expect(
        "reading from an in-memory encoder cannot fail",
    );
    buffer
}

/// Relies on flate2's `bufread::ZlibEncoder` over an in-memory slice: with
/// the default (pure Rust) backend the output is a function of the input
/// bytes and the compression level alone. Reading from the encoder cannot
/// fail because the underlying reader is a slice.
#[verifier::external_body]
fn zlib_bytes(data: &[u8]) -> (r: Vec<u8>)
    ensures
        r@ == zlib_of(data@),
{
    let mut encoder = flate2::bufread::ZlibEncoder::new(data, flate2::Compression::default());
    let mut buffer = Vec::new();
    std::io::Read::read_to_end(&mut encoder, &mut buffer).expect(
        "reading from an in-memory encoder cannot fail",
    );
    buffer
}

impl Encoding {
    /// Whether the engine can compress with this encoding. `compress`, `br`
    /// and `zstd` are recognized tokens but unsupported for encoding, and
    /// `identity` performs no compression, so none of them counts.
    pub open spec fn supported(self) -> bool {
        self == Encoding::Gzip || self == Encoding::Deflate
    }

    /// Whether [`Encoding::encode`] accepts this encoding: the supported
    /// compressions, or `identity`.
    pub open spec fn encodable(self) -> bool {
        self.supported() || self == Encoding::Identity
    }

    /// The canonical textual token of this encoding.
    pub fn as_str(&self) -> (r: &'static str)
        ensures
            vstd::string::is_ascii(r),
            ascii_seq(r@) == encoding_token(*self),
    {
        match self {
            Encoding::Gzip => {
                proof {
                    reveal_strlit("gzip");
                }
                "gzip"
            },
            Encoding::Compress => {
                proof {
                    reveal_strlit("compress");
                }
                "compress"
            },
            Encoding::Deflate => {
                proof {
                    reveal_strlit("deflate");
                }
                "deflate"
            },
            Encoding::Br => {
                proof {
                    reveal_strlit("br");
                }
                "br"
            },
            Encoding::Zstd => {
                proof {
                    reveal_strlit("zstd");
                }
                "zstd"
            },
            Encoding::Identity => {
                proof {
                    reveal_strlit("identity");
                }
                "identity"
            },
        }
    }

    /// The canonical wire token of this encoding, as bytes.
    pub fn token_bytes(&self) -> (v: Vec<u8>)
        ensures
            v@ == encoding_token(*self),
    {
        crate::wire::ascii_bytes(self.as_str())
    }

    /// Parses an encoding from its exact wire token.
    pub fn from_token(t: &[u8]) -> (r: Option<Encoding>)
        ensures
            r == encoding_of(t@),
    {
        if crate::wire::bytes_eq(t, Encoding::Gzip.token_bytes().as_slice()) {
            Some(Encoding::Gzip)
        } else if crate::wire::bytes_eq(t, Encoding::Compress.token_bytes().as_slice()) {
            Some(Encoding::Compress)
        } else if crate::wire::bytes_eq(t, Encoding::Deflate.token_bytes().as_slice()) {
            Some(Encoding::Deflate)
        } else if crate::wire::bytes_eq(t, Encoding::Br.token_bytes().as_slice()) {
            Some(Encoding::Br)
        } else if crate::wire::bytes_eq(t, Encoding::Zstd.token_bytes().as_slice()) {
            Some(Encoding::Zstd)
        } else if crate::wire::bytes_eq(t, Encoding::Identity.token_bytes().as_slice()) {
            Some(Encoding::Identity)
        } else {
            None
        }
    }

    /// Whether the engine can compress with this encoding.
    pub fn is_supported(&self) -> (r: bool)
        ensures
            r == self.supported(),
    {
        match self {
            Encoding::Gzip => true,
            Encoding::Deflate => true,
            _ => false,
        }
    }

    /// Compresses `data` with this encoding; `identity` returns the bytes
    /// unchanged.
    pub fn encode(&self, data: &[u8]) -> (r: Vec<u8>)
        requires
            self.encodable(),
        ensures
            r@ == encoded_body(*self, data@),
    {
        match self {
            Encoding::Gzip => gzip_bytes(data),
            Encoding::Deflate => zlib_bytes(data),
            _ => vstd::slice::slice_to_vec(data),
        }
    }
}

/// The encoding chosen from an `accept-encoding` header value: the value is
/// split on commas, each piece is trimmed of surrounding whitespace, and the
/// first piece that names a supported encoding wins; pieces that fail to
/// parse, and recognized-but-unsupported pieces (`identity` among them), do
/// not block a later supported one. With no supported piece the choice is
/// `identity`.
pub open spec fn selected_encoding(s: Seq<u8>) -> Encoding
    decreases s.len(),
    via selected_encoding_dec
{
    let (tok, rest) = split_at_byte(s, COMMA);
    let cand = match encoding_of(trim_ws(tok)) {
        Some(e) => if e.supported() {
            Some(e)
        } else {
            None
        },
        None => None,
    };
    match cand {
        Some(e) => e,
        None => match rest {
            Some(r) => selected_encoding(r),
            None => Encoding::Identity,
        },
    }
}

#[via_fn]
proof fn selected_encoding_dec(s: Seq<u8>) {
    crate::wire::lemma_split_at_byte(s, COMMA);
}

/// Selects the encoding for a response from the raw `accept-encoding`
/// header value.
pub fn select_encoding(header: &[u8]) -> (e: Encoding)
    ensures
        e == selected_encoding(header@),
{
    let mut rest: &[u8] = header;
    loop
        invariant
            selected_encoding(header@) == selected_encoding(rest@),
        decreases rest@.len(),
    {
        let n = rest.len();
        match crate::wire::find_byte(rest, COMMA) {
            Some(i) => {
                proof {
                    crate::wire::lemma_split_at_byte_found(rest@, COMMA, i as int);
                }
                let tok = vstd::slice::slice_subrange(rest, 0, i);
                proof {
                    assert(tok@ =~= split_at_byte(rest@, COMMA).0);
                }
                let trimmed = crate::wire::trim_vec(tok);
                match Encoding::from_token(trimmed.as_slice()) {
                    Some(e) => {
                        if e.is_supported() {
                            return e;
                        }
                    },
                    None => {
                    },
                }
                rest = vstd::slice::slice_subrange(rest, i + 1, n);
            },
            None => {
                proof {
                    crate::wire::lemma_split_at_byte_none(rest@, COMMA);
                }
                let trimmed = crate::wire::trim_vec(rest);
                match Encoding::from_token(trimmed.as_slice()) {
                    Some(e) => {
                        if e.is_supported() {
                            return e;
                        }
                    },
                    None => {
                    },
                }
                return Encoding::Identity;
            },
        }
    }
}

/// Selection is order-dependent: when the first comma-separated piece of
/// the header names a supported encoding, that encoding wins, whatever
/// follows it.
pub proof fn lemma_first_supported_piece_wins(pre: Seq<u8>, post: Seq<u8>, e: Encoding)
    requires
        forall|k: int| 0 <= k < pre.len() ==> pre[k] != COMMA,
        encoding_of(trim_ws(pre)) == Some(e),
        e.supported(),
    ensures
        selected_encoding(pre + seq![COMMA] + post) == e,
{
    let s = pre + seq![COMMA] + post;
    crate::wire::lemma_split_at_byte_found(s, COMMA, pre.len() as int);
    assert(s.take(pre.len() as int) =~= pre);
    assert(s.skip(pre.len() + 1 as int) =~= post);
}

/// A piece that fails to parse, or parses to an unsupported encoding —
/// `identity` among them — does not block the pieces after it: the
/// selection is whatever the rest of the header selects.
pub proof fn lemma_unsupported_piece_skipped(pre: Seq<u8>, post: Seq<u8>)
    requires
        forall|k: int| 0 <= k < pre.len() ==> pre[k] != COMMA,
        match encoding_of(trim_ws(pre)) {
            Some(e) => !e.supported(),
            None => true,
        },
    ensures
        selected_encoding(pre + seq![COMMA] + post) == selected_encoding(post),
{
    let s = pre + seq![COMMA] + post;
    crate::wire::lemma_split_at_byte_found(s, COMMA, pre.len() as int);
    assert(s.take(pre.len() as int) =~= pre);
    assert(s.skip(pre.len() + 1 as int) =~= post);
}

/// The negotiator never answers an unsupported compression: its choice is
/// `identity` or one of the encodings the engine can compress with.
pub proof fn lemma_selected_encodable(s: Seq<u8>)
    ensures
        selected_encoding(s).encodable(),
    decreases s.len(),
{
    crate::wire::lemma_split_at_byte(s, COMMA);
    let (tok, rest) = split_at_byte(s, COMMA);
    match rest {
        Some(r) => {
            lemma_selected_encodable(r);
        },
        None => {
        },
    }
}

} // verus!
