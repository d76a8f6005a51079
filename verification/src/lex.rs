//! Lexical primitives: byte classes and maximal-run scanners.
//!
//! Every scanner is characterised by [`run_end`], the end of the maximal run
//! of bytes satisfying a predicate, so "maximal" is part of each contract:
//! everything before the result satisfies the class, and the byte at the
//! result (if any) does not.

use vstd::prelude::*;

use crate::span::LF;
use crate::span::Span;
use crate::span::make_span;

verus! {

/// The single space byte, the mandatory request-line separator.
pub const SP: u8 = 32;

/// `:`, ending a header field name.
pub const COLON: u8 = 58;

/// Token bytes: ASCII alphanumerics plus ``! # $ % & ' * + - . ^ _ ` | ~``.
/// Method names and header field names are token runs.
pub open spec fn is_token_byte(b: u8) -> bool {
    ||| 48 <= b <= 57
    ||| 65 <= b <= 90
    ||| 97 <= b <= 122
    ||| b == 33
    ||| 35 <= b <= 39
    ||| b == 42
    ||| b == 43
    ||| b == 45
    ||| b == 46
    ||| 94 <= b <= 96
    ||| b == 124
    ||| b == 126
}

/// Visible bytes (0x21 through 0x7e): the request target is a run of these.
pub open spec fn is_vchar_byte(b: u8) -> bool {
    33 <= b <= 126
}

/// Header value bytes: tab, or space through 0x7e.
pub open spec fn is_hval_byte(b: u8) -> bool {
    b == 9 || 32 <= b <= 126
}

/// Exec mirror of [`is_token_byte`].
pub fn is_token_char(b: u8) -> (r: bool)
    ensures
        r == is_token_byte(b),
{
    (48 <= b && b <= 57) || (65 <= b && b <= 90) || (97 <= b && b <= 122) || b == 33 || (35 <= b
        && b <= 39) || b == 42 || b == 43 || b == 45 || b == 46 || (94 <= b && b <= 96) || b == 124
        || b == 126
}

/// Exec mirror of [`is_vchar_byte`].
pub fn is_vchar(b: u8) -> (r: bool)
    ensures
        r == is_vchar_byte(b),
{
    33 <= b && b <= 126
}

/// Exec mirror of [`is_hval_byte`].
pub fn is_header_value_char(b: u8) -> (r: bool)
    ensures
        r == is_hval_byte(b),
{
    b == 9 || (32 <= b && b <= 126)
}

/// True of the single space byte.
pub fn is_space_char(b: u8) -> (r: bool)
    ensures
        r == (b == SP),
{
    b == SP
}

/// True of the line terminator.
pub fn is_line_ending(b: u8) -> (r: bool)
    ensures
        r == (b == LF),
{
    b == LF
}

/// End of the maximal run of bytes satisfying `pred`, starting at `p`:
/// the first offset at or after `p` whose byte fails `pred`, or the end
/// of the buffer.
pub open spec fn run_end(s: Seq<u8>, p: int, pred: spec_fn(u8) -> bool) -> int
    decreases s.len() - p,
{
    if 0 <= p < s.len() && pred(s[p]) {
        run_end(s, p + 1, pred)
    } else {
        p
    }
}

/// A run never moves backwards and never passes the end of the buffer.
pub proof fn lemma_run_end_bounds(s: Seq<u8>, p: int, pred: spec_fn(u8) -> bool)
    requires
        0 <= p <= s.len(),
    ensures
        p <= run_end(s, p, pred) <= s.len(),
    decreases s.len() - p,
{
    if 0 <= p < s.len() && pred(s[p]) {
        lemma_run_end_bounds(s, p + 1, pred);
    }
}

/// Everything inside the run satisfies `pred`; the byte at its end does not.
pub proof fn lemma_run_end_chars(s: Seq<u8>, p: int, pred: spec_fn(u8) -> bool)
    requires
        0 <= p <= s.len(),
    ensures
        forall|i: int| p <= i < run_end(s, p, pred) ==> pred(s[i]),
        run_end(s, p, pred) < s.len() ==> !pred(s[run_end(s, p, pred)]),
    decreases s.len() - p,
{
    if 0 <= p < s.len() && pred(s[p]) {
        lemma_run_end_chars(s, p + 1, pred);
    }
}

/// A run whose content is known exactly: if everything in `[p, e)`
/// satisfies `pred` and the byte at `e` (if any) does not, the run ends
/// at `e`.
pub proof fn lemma_run_end_is(s: Seq<u8>, p: int, e: int, pred: spec_fn(u8) -> bool)
    requires
        0 <= p <= e <= s.len(),
        forall|i: int| p <= i < e ==> pred(s[i]),
        e < s.len() ==> !pred(s[e]),
    ensures
        run_end(s, p, pred) == e,
    decreases e - p,
{
    if p < e {
        lemma_run_end_is(s, p + 1, e, pred);
    }
}

/// End of the token run starting at `p`.
pub open spec fn token_end(s: Seq<u8>, p: int) -> int {
    run_end(s, p, |b: u8| is_token_byte(b))
}

/// End of the visible-byte run starting at `p`.
pub open spec fn vchar_end(s: Seq<u8>, p: int) -> int {
    run_end(s, p, |b: u8| is_vchar_byte(b))
}

/// End of the space run starting at `p`.
pub open spec fn space_end(s: Seq<u8>, p: int) -> int {
    run_end(s, p, |b: u8| b == SP)
}

/// End of the header-value run starting at `p`.
pub open spec fn hval_end(s: Seq<u8>, p: int) -> int {
    run_end(s, p, |b: u8| is_hval_byte(b))
}

/// End of the run of line terminators starting at `p`.
pub open spec fn lf_end(s: Seq<u8>, p: int) -> int {
    run_end(s, p, |b: u8| b == LF)
}

/// First line terminator at or after `p`, or the end of the buffer.
pub open spec fn line_end(s: Seq<u8>, p: int) -> int {
    run_end(s, p, |b: u8| b != LF)
}

/// Exec scan to [`token_end`].
pub fn scan_token(src: &[u8], from: usize) -> (r: usize)
    requires
        from <= src.len(),
    ensures
        r == token_end(src@, from as int),
        from <= r <= src.len(),
{
    let mut i: usize = from;
    while i < src.len() && is_token_char(src[i])
        invariant
            from <= i <= src.len(),
            token_end(src@, from as int) == token_end(src@, i as int),
        decreases src.len() - i,
    {
        i = i + 1;
    }
    i
}

/// Exec scan to [`vchar_end`].
pub fn scan_vchar(src: &[u8], from: usize) -> (r: usize)
    requires
        from <= src.len(),
    ensures
        r == vchar_end(src@, from as int),
        from <= r <= src.len(),
{
    let mut i: usize = from;
    while i < src.len() && is_vchar(src[i])
        invariant
            from <= i <= src.len(),
            vchar_end(src@, from as int) == vchar_end(src@, i as int),
        decreases src.len() - i,
    {
        i = i + 1;
    }
    i
}

/// Exec scan to [`space_end`].
pub fn scan_space(src: &[u8], from: usize) -> (r: usize)
    requires
        from <= src.len(),
    ensures
        r == space_end(src@, from as int),
        from <= r <= src.len(),
{
    let mut i: usize = from;
    while i < src.len() && src[i] == SP
        invariant
            from <= i <= src.len(),
            space_end(src@, from as int) == space_end(src@, i as int),
        decreases src.len() - i,
    {
        i = i + 1;
    }
    i
}

/// Exec scan to [`hval_end`].
pub fn scan_hval(src: &[u8], from: usize) -> (r: usize)
    requires
        from <= src.len(),
    ensures
        r == hval_end(src@, from as int),
        from <= r <= src.len(),
{
    let mut i: usize = from;
    while i < src.len() && is_header_value_char(src[i])
        invariant
            from <= i <= src.len(),
            hval_end(src@, from as int) == hval_end(src@, i as int),
        decreases src.len() - i,
    {
        i = i + 1;
    }
    i
}

/// Exec scan to [`lf_end`]: past a run of blank lines.
pub fn scan_lf(src: &[u8], from: usize) -> (r: usize)
    requires
        from <= src.len(),
    ensures
        r == lf_end(src@, from as int),
        from <= r <= src.len(),
{
    let mut i: usize = from;
    while i < src.len() && src[i] == LF
        invariant
            from <= i <= src.len(),
            lf_end(src@, from as int) == lf_end(src@, i as int),
        decreases src.len() - i,
    {
        i = i + 1;
    }
    i
}

/// Exec scan to [`line_end`]: to the next line terminator or end of input.
pub fn scan_line_end(src: &[u8], from: usize) -> (r: usize)
    requires
        from <= src.len(),
    ensures
        r == line_end(src@, from as int),
        from <= r <= src.len(),
{
    let mut i: usize = from;
    while i < src.len() && src[i] != LF
        invariant
            from <= i <= src.len(),
            line_end(src@, from as int) == line_end(src@, i as int),
        decreases src.len() - i,
    {
        i = i + 1;
    }
    i
}

/// Maximal run of token bytes at `pos`, as a captured span plus the rest.
pub fn token(src: &[u8], pos: usize) -> (r: (Span, usize))
    requires
        pos <= src.len(),
        src.len() < usize::MAX,
    ensures
        r.1 == token_end(src@, pos as int),
        r.0@.off == pos && r.0@.end() == r.1,
        r.0.wf(src@),
{
    let e = scan_token(src, pos);
    (make_span(src, pos, e), e)
}

/// Maximal run of visible bytes at `pos`, as a captured span plus the rest.
pub fn vchar_1(src: &[u8], pos: usize) -> (r: (Span, usize))
    requires
        pos <= src.len(),
        src.len() < usize::MAX,
    ensures
        r.1 == vchar_end(src@, pos as int),
        r.0@.off == pos && r.0@.end() == r.1,
        r.0.wf(src@),
{
    let e = scan_vchar(src, pos);
    (make_span(src, pos, e), e)
}

/// Exactly one literal space, the mandatory request-line separator.
/// `None` means the separator is absent, which callers treat as a hard
/// failure rather than a silent skip.
pub fn sp(src: &[u8], pos: usize) -> (r: Option<usize>)
    requires
        pos <= src.len(),
    ensures
        match r {
            Some(q) => pos < src.len() && src@[pos as int] == SP && q == pos + 1,
            None => !(pos < src.len() && src@[pos as int] == SP),
        },
{
    if pos < src.len() && src[pos] == SP {
        Some(pos + 1)
    } else {
        None
    }
}

} // verus!
