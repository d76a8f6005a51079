//! Executable grammar rules, each proved equal to its rule in `model`.

use vstd::prelude::*;

use crate::ast::Header;
use crate::ast::MessageBody;
use crate::ast::RequestLine;
use crate::ast::ScriptHandler;
use crate::ast::Version;
use crate::ast::GHeader;
use crate::ast::GScript;
use crate::ast::body_wf;
use crate::ast::headers_wf;
use crate::ast::hviews;
use crate::ast::script_wf;
use crate::err::ErrKind;
use crate::err::ParseErr;
use crate::lex::COLON;
use crate::lex::SP;
use crate::lex::scan_hval;
use crate::lex::scan_lf;
use crate::lex::scan_line_end;
use crate::lex::scan_space;
use crate::lex::scan_token;
use crate::lex::scan_vchar;
use crate::model::body_end;
use crate::model::eat_eol;
use crate::model::is_boundary;
use crate::model::lemma_trim_inside_body;
use crate::model::seek_close;
use crate::model::spec_body;
use crate::model::spec_file_script;
use crate::model::spec_header_line;
use crate::model::spec_http_version;
use crate::model::spec_headers;
use crate::model::spec_inline;
use crate::model::spec_request_line;
use crate::model::spec_script;
use crate::model::spec_title_opt;
use crate::model::starts_file_ref;
use crate::model::starts_http1;
use crate::model::starts_script;
use crate::model::starts_title;
use crate::span::LF;
use crate::span::Span;
use crate::span::make_span;

verus! {

/// A zero-length error at `off`, with its true line and column.
pub(crate) fn err_at(src: &[u8], kind: ErrKind, message: &str, off: usize) -> (r: ParseErr)
    requires
        off <= src.len(),
        src.len() < usize::MAX,
    ensures
        r.kind == kind,
        r.span@.off == off && r.span@.len == 0,
        r.span.wf(src@),
{
    ParseErr::new(kind, message.to_string(), make_span(src, off, off))
}

/// One optional line terminator.
fn eat_one_eol(src: &[u8], q: usize) -> (r: usize)
    requires
        q <= src.len(),
    ensures
        r == eat_eol(src@, q as int),
        q <= r <= src.len(),
{
    if q < src.len() && src[q] == LF {
        q + 1
    } else {
        q
    }
}

/// A `###` title marker sits at `pos`.
fn title_marker_at(src: &[u8], pos: usize) -> (r: bool)
    requires
        pos <= src.len(),
    ensures
        r == starts_title(src@, pos as int),
{
    src.len() - pos >= 3 && src[pos] == 35 && src[pos + 1] == 35 && src[pos + 2] == 35
}

/// A `> ` script marker sits at `pos`.
fn script_marker_at(src: &[u8], pos: usize) -> (r: bool)
    requires
        pos <= src.len(),
    ensures
        r == starts_script(src@, pos as int),
{
    src.len() - pos >= 2 && src[pos] == 62 && src[pos + 1] == 32
}

/// Optional title line at `pos`: `###`, an optional single space, the
/// text to end of line, and the mandatory terminator.  `(None, pos)` when
/// the marker or the terminator is absent: no title is not a failure and
/// consumes nothing.
pub fn parse_request_title(src: &[u8], pos: usize) -> (r: (Option<Span>, usize))
    requires
        pos <= src.len(),
        src.len() < usize::MAX,
    ensures
        ({
            let m = spec_title_opt(src@, pos as int);
            &&& r.1 == m.1
            &&& match (r.0, m.0) {
                (Some(t), Some(g)) => t@ == g && t.wf(src@),
                (None, None) => true,
                _ => false,
            }
        }),
{
    if title_marker_at(src, pos) {
        let t0 = if pos + 3 < src.len() && src[pos + 3] == SP {
            pos + 4
        } else {
            pos + 3
        };
        let e = scan_line_end(src, t0);
        if e < src.len() {
            (Some(make_span(src, t0, e)), e + 1)
        } else {
            (None, pos)
        }
    } else {
        (None, pos)
    }
}

/// The protocol-version suffix of a request line: `None` when `HTTP/1.`
/// is present without a `0` or `1` after it, which fails the request line.
fn http_version(src: &[u8], pos: usize) -> (r: Option<(Version, usize)>)
    requires
        pos <= src.len(),
    ensures
        match spec_http_version(src@, pos as int) {
            Some((v, q)) => r matches Some(x) && x.0 == v && x.1 == q && q <= src@.len(),
            None => r is None,
        },
{
    if src.len() - pos >= 7 && src[pos] == 72 && src[pos + 1] == 84 && src[pos + 2] == 84
        && src[pos + 3] == 80 && src[pos + 4] == 47 && src[pos + 5] == 49 && src[pos + 6] == 46 {
        proof {
            assert(starts_http1(src@, pos as int));
        }
        if pos + 7 < src.len() && (src[pos + 7] == 48 || src[pos + 7] == 49) {
            let version = if src[pos + 7] == 48 {
                Version::V10
            } else {
                Version::V11
            };
            Some((version, pos + 8))
        } else {
            None
        }
    } else {
        proof {
            assert(!starts_http1(src@, pos as int));
        }
        Some((Version::V11, pos))
    }
}

/// The mandatory request line: `method SP target [spaces] [HTTP/1.x]` and
/// one optional terminator.  The missing separator space, or a version
/// suffix not ending in `0` or `1`, is a hard failure; a missing version
/// defaults to `V11` and consumes nothing extra.
pub fn request_line(src: &[u8], pos: usize) -> (r: Result<(RequestLine, usize), ParseErr>)
    requires
        pos <= src.len(),
        src.len() < usize::MAX,
    ensures
        match spec_request_line(src@, pos as int) {
            Some((g, q)) => r matches Ok(x) && x.0@ == g && x.1 == q && q <= src@.len()
                && x.0.method.wf(src@) && x.0.target.wf(src@),
            None => r matches Err(e) && e.kind == ErrKind::RequestLineInvalid && e.span@.off == pos
                && e.span@.len == 0 && e.span.wf(src@),
        },
{
    let me = scan_token(src, pos);
    if !(me < src.len() && src[me] == SP) {
        return Err(err_at(src, ErrKind::RequestLineInvalid, "request line parse failed", pos));
    }
    let te = scan_vchar(src, me + 1);
    let se = scan_space(src, te);
    let method = make_span(src, pos, me);
    let target = make_span(src, me + 1, te);
    match http_version(src, se) {
        Some((version, vq)) => {
            let q = eat_one_eol(src, vq);
            Ok((RequestLine { method, target, version }, q))
        },
        None => Err(err_at(src, ErrKind::RequestLineInvalid, "request line parse failed", pos)),
    }
}

/// One header line: `name ":" spaces value` and the mandatory terminator.
/// A missing colon or terminator is a failure at `pos`.
pub fn header_line(src: &[u8], pos: usize) -> (r: Result<(Header, usize), ParseErr>)
    requires
        pos <= src.len(),
        src.len() < usize::MAX,
    ensures
        match spec_header_line(src@, pos as int) {
            Some((g, q)) => r matches Ok(x) && x.0@ == g && x.1 == q && q <= src@.len()
                && x.0.name.wf(src@) && x.0.value.wf(src@),
            None => r matches Err(e) && e.kind == ErrKind::HeaderLineInvalid && e.span@.off == pos
                && e.span@.len == 0 && e.span.wf(src@),
        },
{
    let ne = scan_token(src, pos);
    if !(ne < src.len() && src[ne] == COLON) {
        return Err(err_at(src, ErrKind::HeaderLineInvalid, "header line parse failed", pos));
    }
    let vs = scan_space(src, ne + 1);
    let ve = scan_hval(src, vs);
    if ve < src.len() && src[ve] == LF {
        Ok((Header { name: make_span(src, pos, ne), value: make_span(src, vs, ve) }, ve + 1))
    } else {
        Err(err_at(src, ErrKind::HeaderLineInvalid, "header line parse failed", pos))
    }
}

/// The headers block: header lines as long as they parse.  A blank line
/// stops the block and is consumed as the separator; a title or script
/// marker or the end of input stops it consuming nothing; any other line
/// is a `HeaderLineInvalid` failure at that line, never silently body.
pub fn parse_headers(src: &[u8], pos: usize) -> (r: Result<(Vec<Header>, usize), ParseErr>)
    requires
        pos <= src.len(),
        src.len() < usize::MAX,
    ensures
        match spec_headers(src@, pos as int) {
            Ok((g, e)) => r matches Ok(x) && hviews(x.0@) == g && x.1 == e && e <= src@.len()
                && headers_wf(src@, x.0@),
            Err(q) => r matches Err(e) && e.kind == ErrKind::HeaderLineInvalid && e.span@.off == q
                && e.span@.len == 0 && e.span.wf(src@),
        },
{
    let mut hs: Vec<Header> = Vec::new();
    let mut p: usize = pos;
    loop
        invariant_except_break
            pos <= p <= src.len(),
            src.len() < usize::MAX,
            headers_wf(src@, hs@),
            match spec_headers(src@, p as int) {
                Ok((g2, e)) => spec_headers(src@, pos as int) == Ok::<(Seq<GHeader>, int), int>(
                    (hviews(hs@) + g2, e),
                ),
                Err(q) => spec_headers(src@, pos as int) == Err::<(Seq<GHeader>, int), int>(q),
            },
        ensures
            p <= src.len(),
            headers_wf(src@, hs@),
            spec_headers(src@, pos as int) == Ok::<(Seq<GHeader>, int), int>((hviews(hs@), p as int)),
        decreases src.len() - p,
    {
        if p == src.len() {
            proof {
                assert(hviews(hs@) + Seq::<GHeader>::empty() =~= hviews(hs@));
            }
            break ;
        }
        match header_line(src, p) {
            Ok((h, np)) => {
                proof {
                    crate::model::lemma_header_line_bounds(src@, p as int);
                    let tail = spec_headers(src@, np as int);
                    if tail is Ok {
                        let (g2, e) = tail->Ok_0;
                        assert(hviews(hs@.push(h)) =~= hviews(hs@) + seq![h@]);
                        assert((hviews(hs@) + seq![h@]) + g2 =~= hviews(hs@) + (seq![h@] + g2));
                    }
                }
                hs.push(h);
                p = np;
            },
            Err(e) => {
                if src[p] == LF {
                    proof {
                        assert(hviews(hs@) + Seq::<GHeader>::empty() =~= hviews(hs@));
                    }
                    p = p + 1;
                    break ;
                } else if title_marker_at(src, p) || script_marker_at(src, p) {
                    proof {
                        assert(hviews(hs@) + Seq::<GHeader>::empty() =~= hviews(hs@));
                    }
                    break ;
                } else {
                    return Err(e);
                }
            },
        }
    }
    Ok((hs, p))
}

/// Exec scan for [`body_end`]: the nearest title or script marker at a
/// line start, or the end of input.
fn scan_body_end(src: &[u8], start: usize) -> (r: usize)
    requires
        start <= src.len(),
    ensures
        r == body_end(src@, start as int, start as int),
        start <= r <= src.len(),
{
    let mut i: usize = start;
    while i < src.len() && !((i == start || src[i - 1] == LF) && (title_marker_at(src, i)
        || script_marker_at(src, i)))
        invariant
            start <= i <= src.len(),
            body_end(src@, start as int, start as int) == body_end(src@, start as int, i as int),
        decreases src.len() - i,
    {
        proof {
            assert(!is_boundary(src@, start as int, i as int));
        }
        i = i + 1;
    }
    proof {
        if i < src.len() {
            assert(is_boundary(src@, start as int, i as int));
        }
    }
    i
}

/// An input-file body: `< ` then the path to the end of its line, the
/// terminator left unconsumed.  A failure when the marker is absent.
pub fn parse_input_file_ref(src: &[u8], pos: usize) -> (r: Result<(MessageBody, usize), ParseErr>)
    requires
        pos <= src.len(),
        src.len() < usize::MAX,
    ensures
        starts_file_ref(src@, pos as int) ==> ({
            let m = spec_body(src@, pos as int);
            r matches Ok(x) && x.0@ == m.0 && x.1 == m.1 && x.1 <= src@.len() && body_wf(
                src@,
                x.0,
            )
        }),
        !starts_file_ref(src@, pos as int) ==> (r matches Err(e) && e.kind == ErrKind::Unexpected
            && e.span@.off == pos && e.span.wf(src@)),
{
    if src.len() - pos >= 2 && src[pos] == 60 && src[pos + 1] == SP {
        let e = scan_line_end(src, pos + 2);
        Ok((MessageBody::File(make_span(src, pos + 2, e)), e))
    } else {
        Err(err_at(src, ErrKind::Unexpected, "input file reference expected", pos))
    }
}

/// The body step: an input-file reference if the region starts with `< `;
/// otherwise everything up to the nearest terminator candidate (title
/// marker, script marker, or end of input), with leading line terminators
/// trimmed, and `Empty` rather than zero-length bytes.
pub fn parse_request_body(src: &[u8], pos: usize) -> (r: (MessageBody, usize))
    requires
        pos <= src.len(),
        src.len() < usize::MAX,
    ensures
        ({
            let m = spec_body(src@, pos as int);
            r.0@ == m.0 && r.1 == m.1 && r.1 <= src@.len() && body_wf(src@, r.0)
        }),
{
    if src.len() - pos >= 2 && src[pos] == 60 && src[pos + 1] == SP {
        let e = scan_line_end(src, pos + 2);
        (MessageBody::File(make_span(src, pos + 2, e)), e)
    } else {
        let e = scan_body_end(src, pos);
        let t = scan_lf(src, pos);
        proof {
            lemma_trim_inside_body(src@, pos as int, pos as int);
        }
        if e <= t {
            (MessageBody::Empty, e)
        } else {
            (MessageBody::Bytes(make_span(src, t, e)), e)
        }
    }
}

/// Exec scan for [`seek_close`]: the first `%}` at or after `from`.
fn scan_close(src: &[u8], from: usize) -> (r: Option<usize>)
    requires
        from <= src.len(),
    ensures
        match r {
            Some(q) => seek_close(src@, from as int) == Some(q as int) && from <= q && q + 2
                <= src.len(),
            None => seek_close(src@, from as int) is None,
        },
{
    let mut i: usize = from;
    while src.len() - i >= 2 && !(src[i] == 37 && src[i + 1] == 125)
        invariant
            from <= i <= src.len(),
            seek_close(src@, from as int) == seek_close(src@, i as int),
        decreases src.len() - i,
    {
        i = i + 1;
    }
    if src.len() - i >= 2 {
        Some(i)
    } else {
        None
    }
}

/// Inline script handler: `> {%`, at least one byte of script text, the
/// first `%}`, then any run of line terminators.  The text between the
/// braces is captured verbatim.  A failure when that shape is absent.
pub fn parse_inline_script(src: &[u8], pos: usize) -> (r: Result<(ScriptHandler, usize), ParseErr>)
    requires
        pos <= src.len(),
        src.len() < usize::MAX,
    ensures
        match spec_inline(src@, pos as int) {
            Some((g, q)) => r matches Ok(x) && x.0@ == (GScript::Inline(g)) && x.1 == q && q
                <= src@.len() && script_wf(src@, x.0),
            None => r matches Err(e) && e.kind == ErrKind::Unexpected && e.span@.off == pos
                && e.span.wf(src@),
        },
{
    if script_marker_at(src, pos) && src.len() - (pos + 2) >= 2 && src[pos + 2] == 123 && src[pos
        + 3] == 37 {
        match scan_close(src, pos + 4) {
            Some(q) => {
                if q > pos + 4 {
                    let rest = scan_lf(src, q + 2);
                    Ok((ScriptHandler::Inline(make_span(src, pos + 4, q)), rest))
                } else {
                    Err(err_at(src, ErrKind::Unexpected, "inline script expected", pos))
                }
            },
            None => Err(err_at(src, ErrKind::Unexpected, "inline script expected", pos)),
        }
    } else {
        Err(err_at(src, ErrKind::Unexpected, "inline script expected", pos))
    }
}

/// External script handler: `> `, a nonempty path to the next terminator
/// or the end of input, then any run of line terminators.  A failure when
/// the marker is absent or the path is empty.
pub fn parse_external_script(src: &[u8], pos: usize) -> (r: Result<
    (ScriptHandler, usize),
    ParseErr,
>)
    requires
        pos <= src.len(),
        src.len() < usize::MAX,
    ensures
        match spec_file_script(src@, pos as int) {
            Some((g, q)) => r matches Ok(x) && x.0@ == (GScript::File(g)) && x.1 == q && q
                <= src@.len() && script_wf(src@, x.0),
            None => r matches Err(e) && e.kind == ErrKind::Unexpected && e.span@.off == pos
                && e.span.wf(src@),
        },
{
    if script_marker_at(src, pos) {
        let e = scan_line_end(src, pos + 2);
        if e > pos + 2 {
            let rest = scan_lf(src, e);
            Ok((ScriptHandler::File(make_span(src, pos + 2, e)), rest))
        } else {
            Err(err_at(src, ErrKind::Unexpected, "external script expected", pos))
        }
    } else {
        Err(err_at(src, ErrKind::Unexpected, "external script expected", pos))
    }
}

/// The script step, a fixed-priority alternation: the inline form first,
/// then the external-file form, else `Empty` consuming nothing.  A missing
/// or malformed script is never a failure.
pub fn parse_script(src: &[u8], pos: usize) -> (r: (ScriptHandler, usize))
    requires
        pos <= src.len(),
        src.len() < usize::MAX,
    ensures
        ({
            let m = spec_script(src@, pos as int);
            r.0@ == m.0 && r.1 == m.1 && r.1 <= src@.len() && script_wf(src@, r.0)
        }),
{
    match parse_inline_script(src, pos) {
        Ok(x) => x,
        Err(_) => match parse_external_script(src, pos) {
            Ok(x) => x,
            Err(_) => (ScriptHandler::Empty, pos),
        },
    }
}

/// Alias for [`header_line`]: one `name ":" spaces value eol` line.
pub fn parse_header(src: &[u8], pos: usize) -> (r: Result<(Header, usize), ParseErr>)
    requires
        pos <= src.len(),
        src.len() < usize::MAX,
    ensures
        match spec_header_line(src@, pos as int) {
            Some((g, q)) => r matches Ok(x) && x.0@ == g && x.1 == q && q <= src@.len()
                && x.0.name.wf(src@) && x.0.value.wf(src@),
            None => r matches Err(e) && e.kind == ErrKind::HeaderLineInvalid && e.span@.off == pos
                && e.span@.len == 0 && e.span.wf(src@),
        },
{
    header_line(src, pos)
}

} // verus!
