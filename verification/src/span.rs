//! Zero-copy source positions.
//!
//! A [`Span`] never owns text: it is a byte range into the caller's buffer,
//! together with the 1-based line and column of its first byte.  `GSpan` is
//! the ghost counterpart used by the grammar model; the line and column are
//! not part of the model but are proved consistent with [`line_of`] and
//! [`col_of`] wherever a `Span` is produced.

use vstd::prelude::*;

verus! {

/// A line terminator byte (`\n`).
pub const LF: u8 = 10;

/// Ghost byte range: the mathematical content of a `Span`.
pub struct GSpan {
    pub off: int,
    pub len: int,
}

impl GSpan {
    /// The end offset, one past the last byte.
    pub open spec fn end(self) -> int {
        self.off + self.len
    }

    /// The range lies inside a buffer of length `n` .
    pub open spec fn inside(self, n: int) -> bool {
        0 <= self.off && 0 <= self.len && self.off + self.len <= n
    }
}

/// The bytes a ghost range captures out of buffer `s`.
pub open spec fn text_of(s: Seq<u8>, g: GSpan) -> Seq<u8> {
    s.subrange(g.off, g.off + g.len)
}

/// 1-based line number of byte offset `off`: one more than the number of
/// line terminators strictly before it.
pub open spec fn line_of(s: Seq<u8>, off: int) -> int
    decreases off,
{
    if off <= 0 {
        1
    } else {
        line_of(s, off - 1) + if s[off - 1] == LF {
            1int
        } else {
            0int
        }
    }
}

/// 1-based column of byte offset `off`: the distance to the nearest line
/// terminator before it (or to the start of the buffer).
pub open spec fn col_of(s: Seq<u8>, off: int) -> int
    decreases off,
{
    if off <= 0 {
        1
    } else if s[off - 1] == LF {
        1
    } else {
        col_of(s, off - 1) + 1
    }
}

/// A captured slice of the source: byte offset, length, and the 1-based
/// line and column of the first byte.  Copying a `Span` never copies text.
#[derive(Clone, Copy, Debug, PartialEq, Eq, Structural)]
pub struct Span {
    pub off: usize,
    pub len: usize,
    pub line: usize,
    pub col: usize,
}

impl View for Span {
    type V = GSpan;

    open spec fn view(&self) -> GSpan {
        GSpan { off: self.off as int, len: self.len as int }
    }
}

impl Span {
    /// The span's position fields agree with its true place in `s`.
    pub open spec fn wf(self, s: Seq<u8>) -> bool {
        &&& self@.inside(s.len() as int)
        &&& self.line == line_of(s, self.off as int)
        &&& self.col == col_of(s, self.off as int)
    }

    /// The bytes this span captures out of `src`.
    pub open spec fn spec_text(self, s: Seq<u8>) -> Seq<u8> {
        text_of(s, self@)
    }

    /// True when nothing was captured.
    pub fn is_empty(&self) -> (r: bool)
        ensures
            r == (self.len == 0),
    {
        self.len == 0
    }
}

/// Line and column of byte offset `off` in `src`, by one forward scan.
pub fn position(src: &[u8], off: usize) -> (r: (usize, usize))
    requires
        off <= src.len(),
        src.len() < usize::MAX,
    ensures
        r.0 == line_of(src@, off as int),
        r.1 == col_of(src@, off as int),
{
    let mut line: usize = 1;
    let mut col: usize = 1;
    let mut i: usize = 0;
    while i < off
        invariant
            i <= off <= src.len() < usize::MAX,
            line == line_of(src@, i as int),
            col == col_of(src@, i as int),
            line <= i + 1,
            col <= i + 1,
        decreases off - i,
    {
        if src[i] == LF {
            line = line + 1;
            col = 1;
        } else {
            col = col + 1;
        }
        i = i + 1;
    }
    (line, col)
}

/// The span `[from, to)` of `src`, with its position fields filled in.
pub fn make_span(src: &[u8], from: usize, to: usize) -> (r: Span)
    requires
        from <= to <= src.len(),
        src.len() < usize::MAX,
    ensures
        r@ == (GSpan { off: from as int, len: (to - from) as int }),
        r.wf(src@),
{
    let (line, col) = position(src, from);
    Span { off: from, len: to - from, line, col }
}

/// The two spans capture the same bytes, each out of its own buffer.
/// Position fields play no part: capture equality is on text only.
pub fn same_text(a_src: &[u8], a: &Span, b_src: &[u8], b: &Span) -> (r: bool)
    requires
        a@.inside(a_src@.len() as int),
        b@.inside(b_src@.len() as int),
    ensures
        r == (a.spec_text(a_src@) == b.spec_text(b_src@)),
{
    let ghost ta = a.spec_text(a_src@);
    let ghost tb = b.spec_text(b_src@);
    if a.len != b.len {
        proof {
            assert(ta != tb) by {
                if ta == tb {
                    assert(ta.len() == tb.len());
                }
            }
        }
        return false;
    }
    let an: usize = a_src.len();
    let bn: usize = b_src.len();
    let mut i: usize = 0;
    while i < a.len
        invariant
            i <= a.len == b.len,
            a.off + a.len <= an == a_src@.len(),
            b.off + b.len <= bn == b_src@.len(),
            ta == a.spec_text(a_src@) && tb == b.spec_text(b_src@),
            forall|j: int| 0 <= j < i ==> ta[j] == tb[j],
        decreases a.len - i,
    {
        if a_src[a.off + i] != b_src[b.off + i] {
            proof {
                assert(ta != tb) by {
                    if ta == tb {
                        assert(ta[i as int] == tb[i as int]);
                    }
                }
            }
            return false;
        }
        i = i + 1;
    }
    proof {
        assert(ta =~= tb);
    }
    true
}

/// The bytes a span captures, copied out of `src` for the caller.
pub fn fragment(src: &[u8], sp: &Span) -> (r: Vec<u8>)
    requires
        sp@.inside(src@.len() as int),
    ensures
        r@ == sp.spec_text(src@),
{
    let n: usize = src.len();
    proof {
        assert(sp@.off + sp@.len <= n);
    }
    let mut out: Vec<u8> = Vec::new();
    let mut i: usize = sp.off;
    let end: usize = sp.off + sp.len;
    while i < end
        invariant
            sp.off <= i <= end,
            end == sp.off + sp.len <= src.len(),
            out@ == src@.subrange(sp.off as int, i as int),
        decreases end - i,
    {
        out.push(src[i]);
        proof {
            assert(out@ =~= src@.subrange(sp.off as int, i + 1 as int));
        }
        i = i + 1;
    }
    proof {
        assert(out@ =~= sp.spec_text(src@));
    }
    out
}

} // verus!
