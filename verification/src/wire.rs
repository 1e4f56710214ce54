//! Byte-level vocabulary shared by the parser, the negotiator and the
//! serializer: ASCII classification, case folding, trimming, line and token
//! splitting, UTF-8 validity, and decimal rendering of lengths.
use vstd::prelude::*;

verus! {

/// Carriage return.
pub const CR: u8 = 13;

/// Line feed.
pub const LF: u8 = 10;

/// ASCII space.
pub const SP: u8 = 32;

/// ASCII colon.
pub const COLON: u8 = 58;

/// ASCII comma.
pub const COMMA: u8 = 44;

/// ASCII whitespace: tab, line feed, vertical tab, form feed, carriage
/// return, space.
pub open spec fn is_ws(b: u8) -> bool {
    b == SP || (9 <= b && b <= 13)
}

/// The byte values of an ASCII character sequence, one byte per character.
pub open spec fn ascii_seq(cs: Seq<char>) -> Seq<u8> {
    Seq::new(cs.len(), |i: int| cs[i] as u8)
}

/// Copies the bytes of an ASCII string slice.
pub fn ascii_bytes(s: &str) -> (v: Vec<u8>)
    requires
        vstd::string::is_ascii(s),
    ensures
        v@ == ascii_seq(s@),
{
    let b = s.as_bytes();
    proof {
        vstd::string::is_ascii_spec_bytes(s);
        assert(b@ =~= ascii_seq(s@));
    }
    vstd::slice::slice_to_vec(b)
}

/// Whether two byte slices hold the same bytes.
pub fn bytes_eq(a: &[u8], b: &[u8]) -> (r: bool)
    ensures
        r <==> a@ == b@,
{
    if a.len() != b.len() {
        return false;
    }
    let mut i: usize = 0;
    while i < a.len()
        invariant
            0 <= i <= a@.len(),
            a@.len() == b@.len(),
            forall|k: int| 0 <= k < i ==> a@[k] == b@[k],
        decreases a@.len() - i,
    {
        if a[i] != b[i] {
            return false;
        }
        i += 1;
    }
    proof {
        assert(a@ =~= b@);
    }
    true
}

/// Appends every byte of `src` to `dst`.
pub fn push_all(dst: &mut Vec<u8>, src: &[u8])
    ensures
        final(dst)@ == old(dst)@ + src@,
{
    let mut i: usize = 0;
    while i < src.len()
        invariant
            0 <= i <= src@.len(),
            dst@ == old(dst)@ + src@.take(i as int),
        decreases src@.len() - i,
    {
        dst.push(src[i]);
        proof {
            assert(old(dst)@ + src@.take(i as int) + seq![src@[i as int]] =~= old(dst)@ + src@.take(
                i + 1,
            ));
        }
        i += 1;
    }
    proof {
        assert(old(dst)@ + src@.take(src@.len() as int) =~= old(dst)@ + src@);
    }
}

/// Appends the bytes of an ASCII string slice to `dst`.
pub fn push_ascii(dst: &mut Vec<u8>, s: &str)
    requires
        vstd::string::is_ascii(s),
    ensures
        final(dst)@ == old(dst)@ + ascii_seq(s@),
{
    let b = s.as_bytes();
    proof {
        vstd::string::is_ascii_spec_bytes(s);
        assert(b@ =~= ascii_seq(s@));
    }
    push_all(dst, b);
}

/// The decimal digits of `n`, most significant first, as ASCII bytes.
pub open spec fn dec_of(n: nat) -> Seq<u8>
    decreases n,
{
    if n < 10 {
        seq![(48 + n) as u8]
    } else {
        dec_of(n / 10).push((48 + n % 10) as u8)
    }
}

/// Renders `n` in decimal as ASCII bytes.
pub fn dec_bytes(n: u64) -> (v: Vec<u8>)
    ensures
        v@ == dec_of(n as nat),
    decreases n,
{
    if n < 10 {
        let mut v: Vec<u8> = Vec::new();
        v.push(48 + n as u8);
        proof {
            assert(v@ =~= dec_of(n as nat));
        }
        v
    } else {
        let mut v = dec_bytes(n / 10);
        v.push(48 + (n % 10) as u8);
        v
    }
}

/// Folds one byte to ASCII lower case.
pub open spec fn lower_byte(b: u8) -> u8 {
    if 65 <= b && b <= 90 {
        (b + 32) as u8
    } else {
        b
    }
}

/// Folds a byte sequence to ASCII lower case.
pub open spec fn lower_seq(s: Seq<u8>) -> Seq<u8> {
    Seq::new(s.len(), |i: int| lower_byte(s[i]))
}

/// ASCII case folding is idempotent.
pub proof fn lemma_lower_idem(s: Seq<u8>)
    ensures
        lower_seq(lower_seq(s)) == lower_seq(s),
{
    assert(lower_seq(lower_seq(s)) =~= lower_seq(s));
}

/// Copies `s` with every byte folded to ASCII lower case.
pub fn lower_vec(s: &[u8]) -> (v: Vec<u8>)
    ensures
        v@ == lower_seq(s@),
{
    let mut v: Vec<u8> = Vec::new();
    let mut i: usize = 0;
    while i < s.len()
        invariant
            0 <= i <= s@.len(),
            v@ =~= lower_seq(s@).take(i as int),
        decreases s@.len() - i,
    {
        let b = s[i];
        if 65 <= b && b <= 90 {
            v.push(b + 32);
        } else {
            v.push(b);
        }
        i += 1;
    }
    proof {
        assert(lower_seq(s@).take(s@.len() as int) =~= lower_seq(s@));
    }
    v
}

/// Drops ASCII whitespace from the front of `s`.
pub open spec fn trim_front(s: Seq<u8>) -> Seq<u8>
    decreases s.len(),
{
    if s.len() > 0 && is_ws(s[0]) {
        trim_front(s.skip(1))
    } else {
        s
    }
}

/// Drops ASCII whitespace from the back of `s`.
pub open spec fn trim_back(s: Seq<u8>) -> Seq<u8>
    decreases s.len(),
{
    if s.len() > 0 && is_ws(s.last()) {
        trim_back(s.drop_last())
    } else {
        s
    }
}

/// Drops ASCII whitespace from both ends of `s`.
pub open spec fn trim_ws(s: Seq<u8>) -> Seq<u8> {
    trim_back(trim_front(s))
}

/// Copies `s` with ASCII whitespace removed from both ends.
pub fn trim_vec(s: &[u8]) -> (v: Vec<u8>)
    ensures
        v@ == trim_ws(s@),
{
    let mut i: usize = 0;
    proof {
        assert(s@.skip(0) =~= s@);
    }
    loop
        invariant_except_break
            0 <= i <= s@.len(),
            trim_front(s@) == trim_front(s@.skip(i as int)),
        ensures
            0 <= i <= s@.len(),
            trim_front(s@) == s@.skip(i as int),
        decreases s@.len() - i,
    {
        if i == s.len() {
            break ;
        }
        let b = s[i];
        if !(b == SP || (9 <= b && b <= 13)) {
            break ;
        }
        proof {
            assert(s@.skip(i as int).skip(1) =~= s@.skip(i + 1));
        }
        i += 1;
    }
    let ghost t = s@.skip(i as int);
    let mut j: usize = s.len();
    proof {
        assert(s@.subrange(i as int, s@.len() as int) =~= t);
    }
    loop
        invariant_except_break
            i <= j <= s@.len(),
            trim_back(t) == trim_back(s@.subrange(i as int, j as int)),
        ensures
            i <= j <= s@.len(),
            trim_back(t) == s@.subrange(i as int, j as int),
        decreases j,
    {
        if j == i {
            break ;
        }
        let b = s[j - 1];
        if !(b == SP || (9 <= b && b <= 13)) {
            break ;
        }
        proof {
            assert(s@.subrange(i as int, j as int).drop_last() =~= s@.subrange(
                i as int,
                j - 1,
            ));
        }
        j -= 1;
    }
    vstd::slice::slice_to_vec(vstd::slice::slice_subrange(s, i, j))
}

/// Splits `s` at the first occurrence of the byte `d`: the part before it,
/// and the part after it, or `None` in the second position when `d` does not
/// occur.
pub open spec fn split_at_byte(s: Seq<u8>, d: u8) -> (Seq<u8>, Option<Seq<u8>>)
    decreases s.len(),
{
    if s.len() == 0 {
        (s, None)
    } else if s[0] == d {
        (Seq::empty(), Some(s.skip(1)))
    } else {
        let r = split_at_byte(s.skip(1), d);
        (seq![s[0]] + r.0, r.1)
    }
}

/// What [`split_at_byte`] returns, said with indices: the part before is the
/// prefix up to the first occurrence of `d`, the part after is everything
/// past that occurrence.
pub proof fn lemma_split_at_byte(s: Seq<u8>, d: u8)
    ensures
        ({
            let (pre, rest) = split_at_byte(s, d);
            match rest {
                Some(r) => pre.len() < s.len() && pre == s.take(pre.len() as int) && s[pre.len() as int]
                    == d && r == s.skip(pre.len() + 1 as int) && (forall|k: int|
                    0 <= k < pre.len() ==> s[k] != d),
                None => pre == s && (forall|k: int| 0 <= k < s.len() ==> s[k] != d),
            }
        }),
    decreases s.len(),
{
    if s.len() == 0 {
    } else if s[0] == d {
        assert(split_at_byte(s, d).0 =~= s.take(0));
        assert(split_at_byte(s, d).1 == Some(s.skip(1)));
    } else {
        lemma_split_at_byte(s.skip(1), d);
        let (pre1, rest1) = split_at_byte(s.skip(1), d);
        let (pre, rest) = split_at_byte(s, d);
        match rest1 {
            Some(r1) => {
                assert(pre =~= s.take(pre1.len() + 1 as int));
                assert(r1 =~= s.skip(pre1.len() + 2 as int));
                assert(s[pre1.len() + 1 as int] == s.skip(1)[pre1.len() as int]);
                assert forall|k: int| 0 <= k < pre.len() implies s[k] != d by {
                    if k > 0 {
                        assert(s.skip(1)[k - 1] != d);
                    }
                }
            },
            None => {
                assert(pre =~= s);
                assert forall|k: int| 0 <= k < s.len() implies s[k] != d by {
                    if k > 0 {
                        assert(s.skip(1)[k - 1] != d);
                    }
                }
            },
        }
    }
}

/// The first occurrence of `d` in `s`, if any.
pub fn find_byte(s: &[u8], d: u8) -> (r: Option<usize>)
    ensures
        match r {
            Some(i) => i < s@.len() && s@[i as int] == d && (forall|k: int|
                0 <= k < i ==> s@[k] != d),
            None => forall|k: int| 0 <= k < s@.len() ==> s@[k] != d,
        },
{
    let mut i: usize = 0;
    while i < s.len()
        invariant
            0 <= i <= s@.len(),
            forall|k: int| 0 <= k < i ==> s@[k] != d,
        decreases s@.len() - i,
    {
        if s[i] == d {
            return Some(i);
        }
        i += 1;
    }
    None
}

/// Relates [`find_byte`]'s answer to [`split_at_byte`]: finding `d` at `i`
/// means the split keeps the first `i` bytes and resumes after `i`.
pub proof fn lemma_split_at_byte_found(s: Seq<u8>, d: u8, i: int)
    requires
        0 <= i < s.len(),
        s[i] == d,
        forall|k: int| 0 <= k < i ==> s[k] != d,
    ensures
        split_at_byte(s, d) == (s.take(i), Some(s.skip(i + 1))),
{
    lemma_split_at_byte(s, d);
    let (pre, rest) = split_at_byte(s, d);
    match rest {
        Some(r) => {
            if pre.len() < i {
                assert(s[pre.len() as int] != d);
            }
            if pre.len() > i {
                assert(s[i] != d);
            }
            assert(pre.len() == i);
        },
        None => {
            assert(s[i] != d);
        },
    }
}

/// When `d` does not occur in `s`, the split keeps all of `s`.
pub proof fn lemma_split_at_byte_none(s: Seq<u8>, d: u8)
    requires
        forall|k: int| 0 <= k < s.len() ==> s[k] != d,
    ensures
        split_at_byte(s, d) == (s, None::<Seq<u8>>),
{
    lemma_split_at_byte(s, d);
    let (pre, rest) = split_at_byte(s, d);
    match rest {
        Some(r) => {
            assert(s[pre.len() as int] != d);
        },
        None => {
        },
    }
}

/// Whether `p` is a prefix of `s`.
pub fn starts_with(s: &[u8], p: &[u8]) -> (r: bool)
    ensures
        r <==> (s@.len() >= p@.len() && s@.take(p@.len() as int) == p@),
{
    if s.len() < p.len() {
        return false;
    }
    let head = vstd::slice::slice_subrange(s, 0, p.len());
    bytes_eq(head, p)
}

/// A UTF-8 continuation byte.
pub open spec fn is_cont(b: u8) -> bool {
    0x80 <= b && b <= 0xBF
}

/// Whether `s` is a well-formed UTF-8 byte sequence: every scalar value is
/// encoded in its shortest form, and surrogates and values above 0x10FFFF
/// are excluded.
pub open spec fn utf8_ok(s: Seq<u8>) -> bool
    decreases s.len(),
{
    if s.len() == 0 {
        true
    } else {
        let b0 = s[0];
        if b0 < 0x80 {
            utf8_ok(s.skip(1))
        } else if 0xC2 <= b0 && b0 <= 0xDF {
            if s.len() >= 2 && is_cont(s[1]) {
                utf8_ok(s.skip(2))
            } else {
                false
            }
        } else if b0 == 0xE0 {
            if s.len() >= 3 && 0xA0 <= s[1] && s[1] <= 0xBF && is_cont(s[2]) {
                utf8_ok(s.skip(3))
            } else {
                false
            }
        } else if b0 == 0xED {
            if s.len() >= 3 && 0x80 <= s[1] && s[1] <= 0x9F && is_cont(s[2]) {
                utf8_ok(s.skip(3))
            } else {
                false
            }
        } else if 0xE1 <= b0 && b0 <= 0xEF {
            if s.len() >= 3 && is_cont(s[1]) && is_cont(s[2]) {
                utf8_ok(s.skip(3))
            } else {
                false
            }
        } else if b0 == 0xF0 {
            if s.len() >= 4 && 0x90 <= s[1] && s[1] <= 0xBF && is_cont(s[2]) && is_cont(s[3]) {
                utf8_ok(s.skip(4))
            } else {
                false
            }
        } else if 0xF1 <= b0 && b0 <= 0xF3 {
            if s.len() >= 4 && is_cont(s[1]) && is_cont(s[2]) && is_cont(s[3]) {
                utf8_ok(s.skip(4))
            } else {
                false
            }
        } else if b0 == 0xF4 {
            if s.len() >= 4 && 0x80 <= s[1] && s[1] <= 0x8F && is_cont(s[2]) && is_cont(s[3]) {
                utf8_ok(s.skip(4))
            } else {
                false
            }
        } else {
            false
        }
    }
}

/// Decides [`utf8_ok`] on a byte slice.
pub fn check_utf8(s: &[u8]) -> (r: bool)
    ensures
        r == utf8_ok(s@),
{
    let n = s.len();
    let mut i: usize = 0;
    proof {
        assert(s@.skip(0) =~= s@);
    }
    loop
        invariant_except_break
            0 <= i <= s@.len(),
            utf8_ok(s@) == utf8_ok(s@.skip(i as int)),
            n == s@.len(),
        ensures
            utf8_ok(s@),
        decreases s@.len() - i,
    {
        if i == n {
            proof {
                assert(s@.skip(i as int).len() == 0);
            }
            break ;
        }
        let b0 = s[i];
        let w: usize = if b0 < 0x80 {
            1
        } else if 0xC2 <= b0 && b0 <= 0xDF {
            if !(n - i >= 2 && 0x80 <= s[i + 1] && s[i + 1] <= 0xBF) {
                return false;
            }
            2
        } else if b0 == 0xE0 {
            if !(n - i >= 3 && 0xA0 <= s[i + 1] && s[i + 1] <= 0xBF && 0x80 <= s[i + 2] && s[i + 2]
                <= 0xBF) {
                return false;
            }
            3
        } else if b0 == 0xED {
            if !(n - i >= 3 && 0x80 <= s[i + 1] && s[i + 1] <= 0x9F && 0x80 <= s[i + 2] && s[i + 2]
                <= 0xBF) {
                return false;
            }
            3
        } else if 0xE1 <= b0 && b0 <= 0xEF {
            if !(n - i >= 3 && 0x80 <= s[i + 1] && s[i + 1] <= 0xBF && 0x80 <= s[i + 2] && s[i + 2]
                <= 0xBF) {
                return false;
            }
            3
        } else if b0 == 0xF0 {
            if !(n - i >= 4 && 0x90 <= s[i + 1] && s[i + 1] <= 0xBF && 0x80 <= s[i + 2] && s[i + 2]
                <= 0xBF && 0x80 <= s[i + 3] && s[i + 3] <= 0xBF) {
                return false;
            }
            4
        } else if 0xF1 <= b0 && b0 <= 0xF3 {
            if !(n - i >= 4 && 0x80 <= s[i + 1] && s[i + 1] <= 0xBF && 0x80 <= s[i + 2] && s[i + 2]
                <= 0xBF && 0x80 <= s[i + 3] && s[i + 3] <= 0xBF) {
                return false;
            }
            4
        } else if b0 == 0xF4 {
            if !(n - i >= 4 && 0x80 <= s[i + 1] && s[i + 1] <= 0x8F && 0x80 <= s[i + 2] && s[i + 2]
                <= 0xBF && 0x80 <= s[i + 3] && s[i + 3] <= 0xBF) {
                return false;
            }
            4
        } else {
            return false;
        };
        proof {
            assert(s@.skip(i as int).skip(w as int) =~= s@.skip(i + w));
        }
        i += w;
    }
    true
}

/// The length of the leading run of non-whitespace bytes in `s`.
pub open spec fn tok_len(s: Seq<u8>) -> int
    decreases s.len(),
{
    if s.len() == 0 || is_ws(s[0]) {
        0
    } else {
        1 + tok_len(s.skip(1))
    }
}

/// Bounds and content of the leading token measured by [`tok_len`].
pub proof fn lemma_tok_len(s: Seq<u8>)
    ensures
        0 <= tok_len(s) <= s.len(),
        forall|k: int| 0 <= k < tok_len(s) ==> !is_ws(s[k]),
        tok_len(s) < s.len() ==> is_ws(s[tok_len(s)]),
    decreases s.len(),
{
    if s.len() == 0 || is_ws(s[0]) {
    } else {
        lemma_tok_len(s.skip(1));
        assert forall|k: int| 0 <= k < tok_len(s) implies !is_ws(s[k]) by {
            if k > 0 {
                assert(!is_ws(s.skip(1)[k - 1]));
            }
        }
        if tok_len(s) < s.len() {
            assert(is_ws(s.skip(1)[tok_len(s) - 1]));
        }
    }
}

/// Any index with the leading-token property is [`tok_len`].
pub proof fn lemma_tok_len_is(s: Seq<u8>, k: int)
    requires
        0 <= k <= s.len(),
        forall|m: int| 0 <= m < k ==> !is_ws(s[m]),
        k < s.len() ==> is_ws(s[k]),
    ensures
        tok_len(s) == k,
{
    lemma_tok_len(s);
    if tok_len(s) < k {
        assert(!is_ws(s[tok_len(s)]));
    }
    if tok_len(s) > k {
        assert(!is_ws(s[k]));
    }
}

/// The whitespace-separated tokens of `s`, in order: maximal runs of
/// non-whitespace bytes.
pub open spec fn ws_tokens(s: Seq<u8>) -> Seq<Seq<u8>>
    decreases s.len(),
    via ws_tokens_dec
{
    if s.len() == 0 {
        seq![]
    } else if is_ws(s[0]) {
        ws_tokens(s.skip(1))
    } else {
        seq![s.take(tok_len(s))] + ws_tokens(s.skip(tok_len(s)))
    }
}

#[via_fn]
proof fn ws_tokens_dec(s: Seq<u8>) {
    lemma_tok_len(s);
}

/// Splits `s` into its whitespace-separated tokens.
pub fn split_tokens(s: &[u8]) -> (r: Vec<Vec<u8>>)
    ensures
        r@.len() == ws_tokens(s@).len(),
        forall|k: int| 0 <= k < r@.len() ==> r@[k]@ == ws_tokens(s@)[k],
{
    let n = s.len();
    let mut r: Vec<Vec<u8>> = Vec::new();
    let mut i: usize = 0;
    let ghost mut done: Seq<Seq<u8>> = Seq::empty();
    proof {
        assert(s@.skip(0) =~= s@);
        assert(done + ws_tokens(s@) =~= ws_tokens(s@));
    }
    while i < n
        invariant
            0 <= i <= s@.len(),
            n == s@.len(),
            ws_tokens(s@) == done + ws_tokens(s@.skip(i as int)),
            r@.len() == done.len(),
            forall|k: int| 0 <= k < done.len() ==> r@[k]@ == done[k],
        decreases s@.len() - i,
    {
        let b = s[i];
        if b == SP || (9 <= b && b <= 13) {
            proof {
                assert(s@.skip(i as int).skip(1) =~= s@.skip(i + 1));
            }
            i += 1;
        } else {
            let mut j: usize = i + 1;
            loop
                invariant_except_break
                    i < j <= s@.len(),
                    n == s@.len(),
                    forall|k: int| i <= k < j ==> !is_ws(s@[k]),
                ensures
                    i < j <= s@.len(),
                    forall|k: int| i <= k < j ==> !is_ws(s@[k]),
                    j < s@.len() ==> is_ws(s@[j as int]),
                decreases s@.len() - j,
            {
                if j == n {
                    break ;
                }
                let c = s[j];
                if c == SP || (9 <= c && c <= 13) {
                    break ;
                }
                j += 1;
            }
            let tok = vstd::slice::slice_to_vec(vstd::slice::slice_subrange(s, i, j));
            proof {
                let t = s@.skip(i as int);
                assert forall|m: int| 0 <= m < j - i implies !is_ws(t[m]) by {
                    assert(!is_ws(s@[i + m]));
                }
                lemma_tok_len_is(t, j - i);
                assert(t.take(j - i) =~= s@.subrange(i as int, j as int));
                assert(t.skip(j - i) =~= s@.skip(j as int));
                assert(ws_tokens(t) == seq![s@.subrange(i as int, j as int)] + ws_tokens(
                    s@.skip(j as int),
                ));
            }
            r.push(tok);
            proof {
                done = done.push(s@.subrange(i as int, j as int));
                assert(ws_tokens(s@) =~= done + ws_tokens(s@.skip(j as int)));
            }
            i = j;
        }
    }
    proof {
        assert(ws_tokens(s@.skip(i as int)) =~= Seq::<Seq<u8>>::empty());
        assert(ws_tokens(s@) =~= done);
    }
    r
}

} // verus!
