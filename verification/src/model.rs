//! The grammar, stated over `Seq<u8>`.
//!
//! Each rule is a spec function from the source and a start offset to the
//! captured ghost value and the offset where the rest of the input begins;
//! the executable parsers are proved to return exactly these values.  The
//! central rule is [`body_end`]: the body of a request runs to the nearest
//! of a title marker at a line start, a script marker at a line start, or
//! the end of input ([`lemma_body_end_min`] states that "nearest" exactly).

use vstd::prelude::*;

use crate::ast::GBody;
use crate::ast::GHeader;
use crate::ast::GReq;
use crate::ast::GReqLine;
use crate::ast::GScript;
use crate::ast::Version;
use crate::err::ErrKind;
use crate::lex::hval_end;
use crate::lex::lemma_run_end_bounds;
use crate::lex::lemma_run_end_chars;
use crate::lex::lf_end;
use crate::lex::line_end;
use crate::lex::space_end;
use crate::lex::token_end;
use crate::lex::vchar_end;
use crate::span::GSpan;
use crate::span::LF;

verus! {

/// A positioned failure in the model: what failed and the byte offset.
pub struct GErr {
    pub kind: ErrKind,
    pub at: int,
}

/// A `###` title marker sits at `p`.
pub open spec fn starts_title(s: Seq<u8>, p: int) -> bool {
    0 <= p && p + 3 <= s.len() && s[p] == 35 && s[p + 1] == 35 && s[p + 2] == 35
}

/// A `> ` script marker sits at `p`.
pub open spec fn starts_script(s: Seq<u8>, p: int) -> bool {
    0 <= p && p + 2 <= s.len() && s[p] == 62 && s[p + 1] == 32
}

/// A `{%` inline-script opener sits at `p`.
pub open spec fn starts_inline_open(s: Seq<u8>, p: int) -> bool {
    0 <= p && p + 2 <= s.len() && s[p] == 123 && s[p + 1] == 37
}

/// A `%}` inline-script closer sits at `p`.
pub open spec fn inline_close_at(s: Seq<u8>, p: int) -> bool {
    0 <= p && p + 2 <= s.len() && s[p] == 37 && s[p + 1] == 125
}

/// A `< ` input-file marker sits at `p`.
pub open spec fn starts_file_ref(s: Seq<u8>, p: int) -> bool {
    0 <= p && p + 2 <= s.len() && s[p] == 60 && s[p + 1] == 32
}

/// The literal `HTTP/1.` sits at `p`.
pub open spec fn starts_http1(s: Seq<u8>, p: int) -> bool {
    0 <= p && p + 7 <= s.len() && s[p] == 72 && s[p + 1] == 84 && s[p + 2] == 84 && s[p + 3] == 80
        && s[p + 4] == 47 && s[p + 5] == 49 && s[p + 6] == 46
}

/// Offset of the first `%}` at or after `p`, if any.
pub open spec fn seek_close(s: Seq<u8>, p: int) -> Option<int>
    decreases s.len() - p,
{
    if p < 0 || p + 2 > s.len() {
        None
    } else if inline_close_at(s, p) {
        Some(p)
    } else {
        seek_close(s, p + 1)
    }
}

/// A found closer lies between `p` and the end of the buffer.
pub proof fn lemma_seek_close_bounds(s: Seq<u8>, p: int)
    ensures
        seek_close(s, p) matches Some(q) ==> p <= q && q + 2 <= s.len(),
    decreases s.len() - p,
{
    if !(p < 0 || p + 2 > s.len()) && !inline_close_at(s, p) {
        lemma_seek_close_bounds(s, p + 1);
    }
}

/// One optional line terminator at `q`.
pub open spec fn eat_eol(s: Seq<u8>, q: int) -> int {
    if 0 <= q < s.len() && s[q] == LF {
        q + 1
    } else {
        q
    }
}

/// Title line: `###`, an optional single space, the title text to the end
/// of the line, and the mandatory terminator.  `None` consumes nothing and
/// is not a failure: the request simply has no title.
pub open spec fn spec_title(s: Seq<u8>, p: int) -> Option<(GSpan, int)> {
    if !starts_title(s, p) {
        None
    } else {
        let t0 = if p + 3 < s.len() && s[p + 3] == 32 {
            p + 4
        } else {
            p + 3
        };
        let e = line_end(s, t0);
        if e < s.len() {
            Some((GSpan { off: t0, len: e - t0 }, e + 1))
        } else {
            None
        }
    }
}

/// Title step of the request rule: the captured title if one is present,
/// and where the request line starts.
pub open spec fn spec_title_opt(s: Seq<u8>, p: int) -> (Option<GSpan>, int) {
    match spec_title(s, p) {
        Some((t, q)) => (Some(t), q),
        None => (None, p),
    }
}

/// Protocol version suffix at `p`: a missing `HTTP/1.` prefix defaults to
/// `V11` consuming nothing, while a present prefix must be followed by `0`
/// or `1` — anything else fails the request line.
pub open spec fn spec_http_version(s: Seq<u8>, p: int) -> Option<(Version, int)> {
    if starts_http1(s, p) {
        if p + 7 < s.len() && (s[p + 7] == 48 || s[p + 7] == 49) {
            let version = if s[p + 7] == 48 {
                Version::V10
            } else {
                Version::V11
            };
            Some((version, p + 8))
        } else {
            None
        }
    } else {
        Some((Version::V11, p))
    }
}

/// Request line: `method SP target [spaces] [HTTP/1.x] [eol]`.  The method
/// and target are maximal runs (either may be empty); the single space
/// after the method is mandatory.
pub open spec fn spec_request_line(s: Seq<u8>, p: int) -> Option<(GReqLine, int)> {
    let me = token_end(s, p);
    if !(me < s.len() && s[me] == 32) {
        None
    } else {
        let te = vchar_end(s, me + 1);
        let se = space_end(s, te);
        let method = GSpan { off: p, len: me - p };
        let target = GSpan { off: me + 1, len: te - (me + 1) };
        match spec_http_version(s, se) {
            Some((version, q)) => Some((GReqLine { method, target, version }, eat_eol(s, q))),
            None => None,
        }
    }
}

/// A parsed request line ends after `p` and inside the buffer.
pub proof fn lemma_request_line_bounds(s: Seq<u8>, p: int)
    requires
        0 <= p <= s.len(),
    ensures
        spec_request_line(s, p) matches Some(r) ==> p < r.1 <= s.len(),
{
    lemma_run_end_bounds(s, p, |b: u8| crate::lex::is_token_byte(b));
    let me = token_end(s, p);
    if me < s.len() && s[me] == 32 {
        lemma_run_end_bounds(s, me + 1, |b: u8| crate::lex::is_vchar_byte(b));
        let te = vchar_end(s, me + 1);
        lemma_run_end_bounds(s, te, |b: u8| b == 32);
    }
}

/// Header line: `name ":" spaces value eol`.  The name is a maximal token
/// run, the value a maximal header-value run with leading spaces skipped;
/// the terminator is mandatory.
pub open spec fn spec_header_line(s: Seq<u8>, p: int) -> Option<(GHeader, int)> {
    let ne = token_end(s, p);
    if !(ne < s.len() && s[ne] == 58) {
        None
    } else {
        let vs = space_end(s, ne + 1);
        let ve = hval_end(s, vs);
        if ve < s.len() && s[ve] == LF {
            Some(
                (
                    GHeader {
                        name: GSpan { off: p, len: ne - p },
                        value: GSpan { off: vs, len: ve - vs },
                    },
                    ve + 1,
                ),
            )
        } else {
            None
        }
    }
}

/// A parsed header line ends strictly after `p` and inside the buffer.
pub proof fn lemma_header_line_bounds(s: Seq<u8>, p: int)
    requires
        0 <= p <= s.len(),
    ensures
        spec_header_line(s, p) matches Some(r) ==> p < r.1 <= s.len(),
{
    lemma_run_end_bounds(s, p, |b: u8| crate::lex::is_token_byte(b));
    let ne = token_end(s, p);
    if ne < s.len() && s[ne] == 58 {
        lemma_run_end_bounds(s, ne + 1, |b: u8| b == 32);
        let vs = space_end(s, ne + 1);
        lemma_run_end_bounds(s, vs, |b: u8| crate::lex::is_hval_byte(b));
    }
}

/// Headers block: header lines as long as they parse; then a blank line
/// stops the block and is consumed as the separator, a title or script
/// marker or the end of input stops it consuming nothing, and any other
/// line is a positioned failure (`Err` carries its offset).
pub open spec fn spec_headers(s: Seq<u8>, p: int) -> Result<(Seq<GHeader>, int), int>
    decreases s.len() - p,
        when 0 <= p <= s.len()
        via spec_headers_dec
{
    if p == s.len() {
        Ok((Seq::empty(), p))
    } else {
        match spec_header_line(s, p) {
            Some((h, q)) => match spec_headers(s, q) {
                Ok((hs, e)) => Ok((seq![h] + hs, e)),
                Err(x) => Err(x),
            },
            None => {
                if s[p] == LF {
                    Ok((Seq::empty(), p + 1))
                } else if starts_title(s, p) || starts_script(s, p) {
                    Ok((Seq::empty(), p))
                } else {
                    Err(p)
                }
            },
        }
    }
}

#[via_fn]
proof fn spec_headers_dec(s: Seq<u8>, p: int) {
    lemma_header_line_bounds(s, p);
}

/// The headers block ends inside the buffer; a failure points at a line
/// at or after `p`.
pub proof fn lemma_headers_bounds(s: Seq<u8>, p: int)
    requires
        0 <= p <= s.len(),
    ensures
        spec_headers(s, p) matches Ok(r) ==> p <= r.1 <= s.len(),
        spec_headers(s, p) matches Err(q) ==> p <= q < s.len(),
    decreases s.len() - p,
{
    if p < s.len() {
        lemma_header_line_bounds(s, p);
        match spec_header_line(s, p) {
            Some((h, q)) => {
                lemma_headers_bounds(s, q);
            },
            None => {},
        }
    }
}

/// `p` begins a line of the body region that starts at `start`.
pub open spec fn at_line_start(s: Seq<u8>, start: int, p: int) -> bool {
    p == start || (0 < p && s[p - 1] == LF)
}

/// A body terminator candidate sits at `p`: a title or script marker at a
/// line start.
pub open spec fn is_boundary(s: Seq<u8>, start: int, p: int) -> bool {
    at_line_start(s, start, p) && (starts_title(s, p) || starts_script(s, p))
}

/// The nearest body terminator at or after `p`: the first offset holding a
/// boundary marker, or the end of input if none occurs.
pub open spec fn body_end(s: Seq<u8>, start: int, p: int) -> int
    decreases s.len() - p,
{
    if p >= s.len() {
        s.len() as int
    } else if is_boundary(s, start, p) {
        p
    } else {
        body_end(s, start, p + 1)
    }
}

/// The body end never precedes `p` and never passes the end of input.
pub proof fn lemma_body_end_bounds(s: Seq<u8>, start: int, p: int)
    requires
        p <= s.len(),
    ensures
        p <= body_end(s, start, p) <= s.len(),
    decreases s.len() - p,
{
    if p < s.len() && !is_boundary(s, start, p) {
        lemma_body_end_bounds(s, start, p + 1);
    }
}

/// Nearest-terminator rule, stated exactly: no boundary marker occurs
/// anywhere before the chosen end, and the chosen end is itself a boundary
/// marker unless it is the end of input.
pub proof fn lemma_body_end_min(s: Seq<u8>, start: int, p: int)
    requires
        p <= s.len(),
    ensures
        forall|q: int| p <= q < body_end(s, start, p) ==> !is_boundary(s, start, q),
        body_end(s, start, p) == s.len() || is_boundary(s, start, body_end(s, start, p)),
    decreases s.len() - p,
{
    if p < s.len() && !is_boundary(s, start, p) {
        lemma_body_end_min(s, start, p + 1);
    }
}

/// Leading line terminators of the body region all lie before its end.
pub proof fn lemma_trim_inside_body(s: Seq<u8>, start: int, q: int)
    requires
        0 <= start <= q <= s.len(),
        q <= lf_end(s, start),
    ensures
        lf_end(s, start) <= body_end(s, start, q),
    decreases s.len() - q,
{
    lemma_run_end_bounds(s, start, |b: u8| b == LF);
    lemma_run_end_chars(s, start, |b: u8| b == LF);
    if q < lf_end(s, start) {
        assert(s[q] == LF);
        lemma_trim_inside_body(s, start, q + 1);
    } else {
        lemma_body_end_bounds(s, start, q);
    }
}

/// Body rule: a region beginning with `< ` is an input-file reference and
/// runs to the end of its line (terminator left unconsumed); otherwise the
/// region runs to [`body_end`], its leading line terminators are trimmed,
/// and an empty post-trim region is `Empty`, never zero-length bytes.
pub open spec fn spec_body(s: Seq<u8>, p: int) -> (GBody, int) {
    if starts_file_ref(s, p) {
        let e = line_end(s, p + 2);
        (GBody::File(GSpan { off: p + 2, len: e - (p + 2) }), e)
    } else {
        let e = body_end(s, p, p);
        let t = lf_end(s, p);
        if e <= t {
            (GBody::Empty, e)
        } else {
            (GBody::Bytes(GSpan { off: t, len: e - t }), e)
        }
    }
}

/// The body step stays inside the buffer.
pub proof fn lemma_body_bounds(s: Seq<u8>, p: int)
    requires
        0 <= p <= s.len(),
    ensures
        p <= spec_body(s, p).1 <= s.len(),
{
    if starts_file_ref(s, p) {
        lemma_run_end_bounds(s, p + 2, |b: u8| b != LF);
    } else {
        lemma_body_end_bounds(s, p, p);
    }
}

/// Inline script: `> {%`, at least one byte of script text, the first
/// `%}`, then any run of line terminators.  `None` when that shape is
/// absent; the text is everything strictly between the braces.
pub open spec fn spec_inline(s: Seq<u8>, p: int) -> Option<(GSpan, int)> {
    if starts_script(s, p) && starts_inline_open(s, p + 2) {
        match seek_close(s, p + 4) {
            Some(q) => if q > p + 4 {
                Some((GSpan { off: p + 4, len: q - (p + 4) }, lf_end(s, q + 2)))
            } else {
                None
            },
            None => None,
        }
    } else {
        None
    }
}

/// External script: `> `, a nonempty path running to the next terminator
/// or the end of input, then any run of line terminators.
pub open spec fn spec_file_script(s: Seq<u8>, p: int) -> Option<(GSpan, int)> {
    if starts_script(s, p) {
        let e = line_end(s, p + 2);
        if e > p + 2 {
            Some((GSpan { off: p + 2, len: e - (p + 2) }, lf_end(s, e)))
        } else {
            None
        }
    } else {
        None
    }
}

/// Script rule, a fixed-priority alternation: inline form first, then the
/// external-file form, and otherwise `Empty`, consuming nothing — a
/// missing or malformed script is never a failure.
pub open spec fn spec_script(s: Seq<u8>, p: int) -> (GScript, int) {
    match spec_inline(s, p) {
        Some((g, q)) => (GScript::Inline(g), q),
        None => match spec_file_script(s, p) {
            Some((g, q)) => (GScript::File(g), q),
            None => (GScript::Empty, p),
        },
    }
}

/// The script step stays inside the buffer.
pub proof fn lemma_script_bounds(s: Seq<u8>, p: int)
    requires
        0 <= p <= s.len(),
    ensures
        p <= spec_script(s, p).1 <= s.len(),
{
    if starts_script(s, p) {
        lemma_seek_close_bounds(s, p + 4);
        match seek_close(s, p + 4) {
            Some(q) => {
                lemma_run_end_bounds(s, q + 2, |b: u8| b == LF);
            },
            None => {},
        }
        lemma_run_end_bounds(s, p + 2, |b: u8| b != LF);
        let e = line_end(s, p + 2);
        lemma_run_end_bounds(s, e, |b: u8| b == LF);
    }
}

/// One whole request: skip blank lines, optional title, mandatory request
/// line, headers block, body, script.  A failing request line or headers
/// block is the request's failure, with its position.
pub open spec fn spec_request(s: Seq<u8>, p: int) -> Result<(GReq, int), GErr> {
    let p1 = lf_end(s, p);
    let tp = spec_title_opt(s, p1);
    match spec_request_line(s, tp.1) {
        None => Err(GErr { kind: ErrKind::RequestLineInvalid, at: tp.1 }),
        Some((line, p3)) => match spec_headers(s, p3) {
            Err(q) => Err(GErr { kind: ErrKind::HeaderLineInvalid, at: q }),
            Ok((hs, p4)) => {
                let be = spec_body(s, p4);
                let sc = spec_script(s, be.1);
                Ok(
                    (
                        GReq {
                            title: tp.0,
                            method: line.method,
                            target: line.target,
                            version: line.version,
                            headers: hs,
                            body: be.0,
                            script: sc.0,
                        },
                        sc.1,
                    ),
                )
            },
        },
    }
}

/// The title step stays inside the buffer and past `p`.
pub proof fn lemma_title_bounds(s: Seq<u8>, p: int)
    requires
        0 <= p <= s.len(),
    ensures
        p <= spec_title_opt(s, p).1 <= s.len(),
{
    if starts_title(s, p) {
        let t0 = if p + 3 < s.len() && s[p + 3] == 32 {
            p + 4
        } else {
            p + 3
        };
        lemma_run_end_bounds(s, t0, |b: u8| b != LF);
    }
}

/// A successful request consumes at least one byte and ends inside the
/// buffer; a failure points inside the buffer.
pub proof fn lemma_request_bounds(s: Seq<u8>, p: int)
    requires
        0 <= p <= s.len(),
    ensures
        spec_request(s, p) matches Ok(r) ==> p < r.1 <= s.len(),
        spec_request(s, p) matches Err(e) ==> p <= e.at <= s.len(),
{
    lemma_run_end_bounds(s, p, |b: u8| b == LF);
    let p1 = lf_end(s, p);
    lemma_title_bounds(s, p1);
    let p2 = spec_title_opt(s, p1).1;
    lemma_request_line_bounds(s, p2);
    match spec_request_line(s, p2) {
        None => {},
        Some((line, p3)) => {
            lemma_headers_bounds(s, p3);
            match spec_headers(s, p3) {
                Err(q) => {},
                Ok((hs, p4)) => {
                    lemma_body_bounds(s, p4);
                    lemma_script_bounds(s, spec_body(s, p4).1);
                },
            }
        },
    }
}

/// The whole document: requests end to end until the input is exhausted.
/// All-or-nothing: the ordered sequence of every request, or the first
/// failure with its position — never a partial document.
pub open spec fn spec_document(s: Seq<u8>, p: int) -> Result<Seq<GReq>, GErr>
    decreases s.len() - p,
        when 0 <= p <= s.len()
        via spec_document_dec
{
    match spec_request(s, p) {
        Err(e) => Err(e),
        Ok((r, q)) => if q == s.len() {
            Ok(seq![r])
        } else {
            match spec_document(s, q) {
                Ok(rs) => Ok(seq![r] + rs),
                Err(e) => Err(e),
            }
        },
    }
}

#[via_fn]
proof fn spec_document_dec(s: Seq<u8>, p: int) {
    lemma_request_bounds(s, p);
}

} // verus!
