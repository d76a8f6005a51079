//! Properties that relate the grammar rules to one another, each proved
//! once and for all over the model: body-boundary tie-breaking, script
//! priority, the default version, untitled requests, the header round
//! trip, and reparsing a remainder as a fresh input.

use vstd::prelude::*;

use crate::ast::GBody;
use crate::ast::GHeader;
use crate::ast::GReq;
use crate::ast::GReqLine;
use crate::ast::GScript;
use crate::ast::Version;
use crate::lex::hval_end;
use crate::lex::is_hval_byte;
use crate::lex::is_token_byte;
use crate::lex::is_vchar_byte;
use crate::lex::lemma_run_end_bounds;
use crate::lex::lemma_run_end_is;
use crate::lex::lf_end;
use crate::lex::line_end;
use crate::lex::run_end;
use crate::lex::space_end;
use crate::lex::token_end;
use crate::lex::vchar_end;
use crate::model::GErr;
use crate::model::body_end;
use crate::model::eat_eol;
use crate::model::inline_close_at;
use crate::model::is_boundary;
use crate::model::lemma_body_bounds;
use crate::model::lemma_body_end_min;
use crate::model::lemma_header_line_bounds;
use crate::model::lemma_headers_bounds;
use crate::model::lemma_request_bounds;
use crate::model::lemma_request_line_bounds;
use crate::model::lemma_title_bounds;
use crate::model::seek_close;
use crate::model::spec_body;
use crate::model::spec_header_line;
use crate::model::spec_document;
use crate::model::spec_headers;
use crate::model::spec_inline;
use crate::model::spec_request;
use crate::model::spec_request_line;
use crate::model::spec_script;
use crate::model::spec_title;
use crate::model::spec_title_opt;
use crate::model::starts_file_ref;
use crate::model::starts_http1;
use crate::model::starts_inline_open;
use crate::model::starts_script;
use crate::model::starts_title;
use crate::span::GSpan;
use crate::span::LF;
use crate::span::text_of;

verus! {

/// Nearest-terminator tie-break: the body never runs past any boundary
/// marker of its region.  In particular, body text containing a literal
/// `###` marker after a `> ` marker stops at the `> `, since the body end
/// is at or before the earlier of the two.
pub proof fn lemma_body_never_passes_marker(s: Seq<u8>, start: int, q: int)
    requires
        start <= s.len(),
        start <= q,
        is_boundary(s, start, q),
    ensures
        body_end(s, start, start) <= q,
{
    lemma_body_end_min(s, start, start);
    if q < body_end(s, start, start) {
        assert(!is_boundary(s, start, q));
    }
}

/// Script priority: whenever the inline form is present, the script rule
/// yields it — an inline-shaped script is never read as an external file
/// path, and a `File` result means the inline form was absent.
pub proof fn lemma_script_priority(s: Seq<u8>, p: int)
    ensures
        spec_inline(s, p) matches Some(x) ==> spec_script(s, p) == (GScript::Inline(x.0), x.1),
        spec_script(s, p).0 matches GScript::File(g) ==> spec_inline(s, p) is None,
{
}

/// Default version: a request line that parses without a `HTTP/1.`
/// suffix after its target yields `V11`.
pub proof fn lemma_default_version(s: Seq<u8>, p: int)
    requires
        !starts_http1(s, space_end(s, vchar_end(s, token_end(s, p) + 1))),
    ensures
        spec_request_line(s, p) matches Some(x) ==> x.0.version == Version::V11,
{
}

/// An untitled request parses: for any method token `m` not opening with
/// a title marker, any visible-byte target `t`, and any body text at all,
/// the input `m SP t LF LF body` parses as one request with no title,
/// method text `m`, target text `t`, and the default version — absence of
/// a title is never mistaken for failure.
pub proof fn lemma_untitled_request(m: Seq<u8>, t: Seq<u8>, body: Seq<u8>)
    requires
        m.len() > 0,
        forall|i: int| 0 <= i < m.len() ==> is_token_byte(#[trigger] m[i]),
        !(m.len() >= 3 && m[0] == 35 && m[1] == 35 && m[2] == 35),
        t.len() > 0,
        forall|i: int| 0 <= i < t.len() ==> is_vchar_byte(#[trigger] t[i]),
    ensures
        ({
            let s = m + seq![32u8] + t + seq![LF, LF] + body;
            let r = spec_request(s, 0);
            &&& r is Ok
            &&& (r matches Ok(x) ==> (x.0.title is None && text_of(s, x.0.method) == m && text_of(
                s,
                x.0.target,
            ) == t && x.0.version == Version::V11 && x.0.headers.len() == 0))
        }),
{
    let s = m + seq![32u8] + t + seq![LF, LF] + body;
    let me = m.len() as int;
    let te = me + 1 + t.len();
    assert(s.len() == m.len() + t.len() + 3 + body.len());
    assert forall|i: int| 0 <= i < m.len() implies s[i] == m[i] by {}
    assert(s[me] == 32);
    assert forall|i: int| 0 <= i < t.len() implies s[me + 1 + i] == t[i] by {}
    assert(s[te] == LF);
    assert(s[te + 1] == LF);

    // no blank lines to skip: the first byte is a token byte, never LF
    assert(is_token_byte(s[0]));
    assert(lf_end(s, 0) == 0) by {
        lemma_run_end_is(s, 0, 0, |b: u8| b == LF);
    }
    // no title marker at the start
    assert(!starts_title(s, 0)) by {
        if m.len() == 1 {
            assert(s[1] == 32);
        } else if m.len() == 2 {
            assert(s[2] == 32);
        }
    }
    // the request line: method, separator, target, terminator, no version
    assert(token_end(s, 0) == me) by {
        lemma_run_end_is(s, 0, me, |b: u8| is_token_byte(b));
    }
    assert(vchar_end(s, me + 1) == te) by {
        lemma_run_end_is(s, me + 1, te, |b: u8| is_vchar_byte(b));
    }
    assert(space_end(s, te) == te) by {
        lemma_run_end_is(s, te, te, |b: u8| b == 32);
    }
    assert(!starts_http1(s, te));
    assert(eat_eol(s, te) == te + 1);
    assert(spec_request_line(s, 0) matches Some(x) && x.1 == te + 1);
    // the headers block stops at the blank line and consumes it
    assert(token_end(s, te + 1) == te + 1) by {
        lemma_run_end_is(s, te + 1, te + 1, |b: u8| is_token_byte(b));
    }
    assert(spec_header_line(s, te + 1) is None);
    assert(spec_headers(s, te + 1) == Ok::<(Seq<crate::ast::GHeader>, int), int>(
        (Seq::empty(), te + 2),
    ));
    assert(text_of(s, GSpan { off: 0, len: me }) =~= m);
    assert(text_of(s, GSpan { off: me + 1, len: t.len() as int }) =~= t);
}

/// Header text built from `(name, value)` pairs, one `name: value` line
/// each, every line terminated.
pub open spec fn build_headers(pairs: Seq<(Seq<u8>, Seq<u8>)>) -> Seq<u8>
    decreases pairs.len(),
{
    if pairs.len() == 0 {
        Seq::empty()
    } else {
        pairs[0].0 + seq![58u8, 32u8] + pairs[0].1 + seq![LF] + build_headers(pairs.drop_first())
    }
}

/// A pair within the permitted character classes: a nonempty token-byte
/// name, and a header-value-byte value not beginning with a space (a
/// leading space would be read back as padding after the colon).
pub open spec fn pair_ok(p: (Seq<u8>, Seq<u8>)) -> bool {
    &&& p.0.len() > 0
    &&& forall|i: int| 0 <= i < p.0.len() ==> is_token_byte(#[trigger] p.0[i])
    &&& forall|i: int| 0 <= i < p.1.len() ==> is_hval_byte(#[trigger] p.1[i])
    &&& p.1.len() > 0 ==> p.1[0] != 32
}

/// Round trip, generalised to any suffix position: a buffer whose content
/// from `p` on is exactly the built header lines parses back to those
/// headers, in order, with matching text, consuming everything.
pub proof fn lemma_headers_round_trip_at(s: Seq<u8>, p: int, pairs: Seq<(Seq<u8>, Seq<u8>)>)
    requires
        0 <= p <= s.len(),
        s.skip(p) == build_headers(pairs),
        forall|k: int| 0 <= k < pairs.len() ==> pair_ok(#[trigger] pairs[k]),
    ensures
        spec_headers(s, p) matches Ok(x) && x.1 == s.len() && x.0.len() == pairs.len() && (forall|
            k: int,
        |
            0 <= k < pairs.len() ==> text_of(s, (#[trigger] x.0[k]).name) == pairs[k].0 && text_of(
                s,
                x.0[k].value,
            ) == pairs[k].1),
    decreases pairs.len(),
{
    assert(s.skip(p).len() == s.len() - p);
    if pairs.len() == 0 {
        assert(p == s.len());
    } else {
        let name = pairs[0].0;
        let val = pairs[0].1;
        let n = name.len() as int;
        let v = val.len() as int;
        let b = build_headers(pairs);
        assert(pair_ok(pairs[0]));
        assert(b.len() == n + 3 + v + build_headers(pairs.drop_first()).len());
        assert(p + n + 3 + v <= s.len());
        assert forall|i: int| p <= i < p + n implies is_token_byte(#[trigger] s[i]) by {
            assert(s[i] == s.skip(p)[i - p]);
            assert(b[i - p] == name[i - p]);
        }
        assert(s[p + n] == 58) by {
            assert(s[p + n] == s.skip(p)[n]);
            assert(b[n] == 58);
        }
        assert(s[p + n + 1] == 32) by {
            assert(s[p + n + 1] == s.skip(p)[n + 1]);
            assert(b[n + 1] == 32);
        }
        assert forall|i: int| p + n + 2 <= i < p + n + 2 + v implies is_hval_byte(
            #[trigger] s[i],
        ) by {
            assert(s[i] == s.skip(p)[i - p]);
            assert(b[i - p] == val[i - p - n - 2]);
        }
        assert forall|j: int| 0 <= j < v implies s[p + n + 2 + j] == val[j] by {
            assert(s[p + n + 2 + j] == s.skip(p)[n + 2 + j]);
            assert(b[n + 2 + j] == val[j]);
        }
        assert(s[p + n + 2 + v] == LF) by {
            assert(s[p + n + 2 + v] == s.skip(p)[n + 2 + v]);
            assert(b[n + 2 + v] == LF);
        }
        assert(token_end(s, p) == p + n) by {
            lemma_run_end_is(s, p, p + n, |x: u8| is_token_byte(x));
        }
        assert(space_end(s, p + n + 1) == p + n + 2) by {
            if v > 0 {
                assert(s[p + n + 2] == val[0]);
            }
            lemma_run_end_is(s, p + n + 1, p + n + 2, |x: u8| x == 32);
        }
        assert(hval_end(s, p + n + 2) == p + n + 2 + v) by {
            lemma_run_end_is(s, p + n + 2, p + n + 2 + v, |x: u8| is_hval_byte(x));
        }
        let q = p + n + 3 + v;
        assert(spec_header_line(s, p) matches Some(y) && y.1 == q && y.0.name == (GSpan {
            off: p,
            len: n,
        }) && y.0.value == (GSpan { off: p + n + 2, len: v }));
        let rest = pairs.drop_first();
        let br = build_headers(rest);
        assert(s.skip(q) =~= br) by {
            assert forall|j: int| 0 <= j < s.len() - q implies s.skip(q)[j] == br[j] by {
                assert(s.skip(q)[j] == s[q + j]);
                assert(b[n + 3 + v + j] == br[j]);
            }
        }
        lemma_headers_round_trip_at(s, q, rest);
        let x = spec_headers(s, p)->Ok_0;
        let tail = spec_headers(s, q)->Ok_0;
        assert(x.0 == seq![spec_header_line(s, p)->Some_0.0] + tail.0);
        assert(text_of(s, x.0[0].name) =~= name);
        assert(text_of(s, x.0[0].value) =~= val);
        assert forall|k: int| 1 <= k < pairs.len() implies text_of(
            s,
            (#[trigger] x.0[k]).name,
        ) == pairs[k].0 && text_of(s, x.0[k].value) == pairs[k].1 by {
            assert(x.0[k] == tail.0[k - 1]);
            assert(pairs[k] == rest[k - 1]);
        }
    }
}

/// Round trip: text built as `name: value` lines out of pairs within the
/// permitted character classes parses back to the same headers, in the
/// same order, with matching text.
pub proof fn lemma_headers_round_trip(pairs: Seq<(Seq<u8>, Seq<u8>)>)
    requires
        forall|k: int| 0 <= k < pairs.len() ==> pair_ok(#[trigger] pairs[k]),
    ensures
        ({
            let s = build_headers(pairs);
            spec_headers(s, 0) matches Ok(x) && x.1 == s.len() && x.0.len() == pairs.len() && (
            forall|k: int|
                0 <= k < pairs.len() ==> text_of(s, (#[trigger] x.0[k]).name) == pairs[k].0
                    && text_of(s, x.0[k].value) == pairs[k].1)
        }),
{
    let s = build_headers(pairs);
    assert(s.skip(0) =~= s);
    lemma_headers_round_trip_at(s, 0, pairs);
}

/// A ghost range moved `d` bytes to the right.
pub open spec fn shift_span(g: GSpan, d: int) -> GSpan {
    GSpan { off: g.off + d, len: g.len }
}

/// A ghost header moved `d` bytes to the right.
pub open spec fn shift_header(h: GHeader, d: int) -> GHeader {
    GHeader { name: shift_span(h.name, d), value: shift_span(h.value, d) }
}

/// A ghost body moved `d` bytes to the right.
pub open spec fn shift_gbody(b: GBody, d: int) -> GBody {
    match b {
        GBody::Bytes(g) => GBody::Bytes(shift_span(g, d)),
        GBody::Empty => GBody::Empty,
        GBody::File(g) => GBody::File(shift_span(g, d)),
    }
}

/// A ghost script moved `d` bytes to the right.
pub open spec fn shift_gscript(h: GScript, d: int) -> GScript {
    match h {
        GScript::File(g) => GScript::File(shift_span(g, d)),
        GScript::Inline(g) => GScript::Inline(shift_span(g, d)),
        GScript::Empty => GScript::Empty,
    }
}

/// A whole ghost request moved `d` bytes to the right.
pub open spec fn shift_greq(g: GReq, d: int) -> GReq {
    GReq {
        title: match g.title {
            Some(t) => Some(shift_span(t, d)),
            None => None,
        },
        method: shift_span(g.method, d),
        target: shift_span(g.target, d),
        version: g.version,
        headers: g.headers.map_values(|h: GHeader| shift_header(h, d)),
        body: shift_gbody(g.body, d),
        script: shift_gscript(g.script, d),
    }
}

/// The bytes a shifted range captures out of the whole buffer are the
/// bytes the unshifted range captures out of the suffix.
pub proof fn lemma_text_shift(s: Seq<u8>, n: int, g: GSpan)
    requires
        0 <= n <= s.len(),
        g.inside(s.len() - n),
    ensures
        text_of(s, shift_span(g, n)) == text_of(s.skip(n), g),
{
    assert(text_of(s, shift_span(g, n)) =~= text_of(s.skip(n), g));
}

/// Maximal runs look the same from the suffix.
proof fn lemma_run_end_shift(s: Seq<u8>, n: int, p: int, pred: spec_fn(u8) -> bool)
    requires
        0 <= n <= s.len(),
        n <= p,
    ensures
        run_end(s, p, pred) == n + run_end(s.skip(n), p - n, pred),
    decreases s.len() - p,
{
    assert(s.skip(n).len() == s.len() - n);
    if 0 <= p < s.len() {
        assert(s.skip(n)[p - n] == s[p]);
        if pred(s[p]) {
            lemma_run_end_shift(s, n, p + 1, pred);
        }
    }
}

/// The first inline-script closer looks the same from the suffix.
proof fn lemma_seek_close_shift(s: Seq<u8>, n: int, p: int)
    requires
        0 <= n <= s.len(),
        n <= p,
    ensures
        seek_close(s, p) == (match seek_close(s.skip(n), p - n) {
            Some(q) => Some(q + n),
            None => None::<int>,
        }),
    decreases s.len() - p,
{
    assert(s.skip(n).len() == s.len() - n);
    if p + 2 <= s.len() {
        assert(s.skip(n)[p - n] == s[p]);
        assert(s.skip(n)[p - n + 1] == s[p + 1]);
        if !inline_close_at(s, p) {
            lemma_seek_close_shift(s, n, p + 1);
        }
    }
}

/// Every marker looks the same from the suffix.
proof fn lemma_markers_shift(s: Seq<u8>, n: int, p: int)
    requires
        0 <= n <= s.len(),
        n <= p,
    ensures
        starts_title(s, p) == starts_title(s.skip(n), p - n),
        starts_script(s, p) == starts_script(s.skip(n), p - n),
        starts_inline_open(s, p) == starts_inline_open(s.skip(n), p - n),
        starts_file_ref(s, p) == starts_file_ref(s.skip(n), p - n),
        starts_http1(s, p) == starts_http1(s.skip(n), p - n),
        eat_eol(s, p) == n + eat_eol(s.skip(n), p - n),
{
    assert(s.skip(n).len() == s.len() - n);
    if p + 7 <= s.len() {
        assert(s.skip(n)[p - n + 3] == s[p + 3]);
        assert(s.skip(n)[p - n + 4] == s[p + 4]);
        assert(s.skip(n)[p - n + 5] == s[p + 5]);
        assert(s.skip(n)[p - n + 6] == s[p + 6]);
    }
    if p + 3 <= s.len() {
        assert(s.skip(n)[p - n + 2] == s[p + 2]);
    }
    if p + 2 <= s.len() {
        assert(s.skip(n)[p - n + 1] == s[p + 1]);
    }
    if p < s.len() {
        assert(s.skip(n)[p - n] == s[p]);
    }
}

/// The title rule looks the same from the suffix.
proof fn lemma_title_shift(s: Seq<u8>, n: int, p: int)
    requires
        0 <= n <= s.len(),
        n <= p <= s.len(),
    ensures
        spec_title(s, p) == (match spec_title(s.skip(n), p - n) {
            Some((g, q)) => Some((shift_span(g, n), q + n)),
            None => None::<(GSpan, int)>,
        }),
        spec_title_opt(s, p).0 == (match spec_title_opt(s.skip(n), p - n).0 {
            Some(g) => Some(shift_span(g, n)),
            None => None::<GSpan>,
        }),
        spec_title_opt(s, p).1 == n + spec_title_opt(s.skip(n), p - n).1,
{
    assert(s.skip(n).len() == s.len() - n);
    lemma_markers_shift(s, n, p);
    if starts_title(s, p) {
        if p + 3 < s.len() {
            assert(s.skip(n)[p - n + 3] == s[p + 3]);
        }
        let t0 = if p + 3 < s.len() && s[p + 3] == 32 {
            p + 4
        } else {
            p + 3
        };
        lemma_run_end_shift(s, n, t0, |b: u8| b != LF);
    }
}

/// The request-line rule looks the same from the suffix.
proof fn lemma_request_line_shift(s: Seq<u8>, n: int, p: int)
    requires
        0 <= n <= s.len(),
        n <= p <= s.len(),
    ensures
        spec_request_line(s, p) == (match spec_request_line(s.skip(n), p - n) {
            Some((g, q)) => Some(
                (
                    GReqLine {
                        method: shift_span(g.method, n),
                        target: shift_span(g.target, n),
                        version: g.version,
                    },
                    q + n,
                ),
            ),
            None => None::<(GReqLine, int)>,
        }),
{
    assert(s.skip(n).len() == s.len() - n);
    lemma_run_end_shift(s, n, p, |b: u8| is_token_byte(b));
    lemma_run_end_bounds(s, p, |b: u8| is_token_byte(b));
    let me = token_end(s, p);
    if me < s.len() {
        assert(s.skip(n)[me - n] == s[me]);
    }
    if me < s.len() && s[me] == 32 {
        lemma_run_end_shift(s, n, me + 1, |b: u8| is_vchar_byte(b));
        lemma_run_end_bounds(s, me + 1, |b: u8| is_vchar_byte(b));
        let te = vchar_end(s, me + 1);
        lemma_run_end_shift(s, n, te, |b: u8| b == 32);
        lemma_run_end_bounds(s, te, |b: u8| b == 32);
        let se = space_end(s, te);
        lemma_markers_shift(s, n, se);
        if starts_http1(s, se) {
            if se + 7 < s.len() {
                assert(s.skip(n)[se + 7 - n] == s[se + 7]);
            }
            if se + 7 < s.len() && (s[se + 7] == 48 || s[se + 7] == 49) {
                lemma_markers_shift(s, n, se + 8);
            }
        }
    }
}

/// The header-line rule looks the same from the suffix.
proof fn lemma_header_line_shift(s: Seq<u8>, n: int, p: int)
    requires
        0 <= n <= s.len(),
        n <= p <= s.len(),
    ensures
        spec_header_line(s, p) == (match spec_header_line(s.skip(n), p - n) {
            Some((h, q)) => Some((shift_header(h, n), q + n)),
            None => None::<(GHeader, int)>,
        }),
{
    assert(s.skip(n).len() == s.len() - n);
    lemma_run_end_shift(s, n, p, |b: u8| is_token_byte(b));
    lemma_run_end_bounds(s, p, |b: u8| is_token_byte(b));
    let ne = token_end(s, p);
    if ne < s.len() {
        assert(s.skip(n)[ne - n] == s[ne]);
    }
    if ne < s.len() && s[ne] == 58 {
        lemma_run_end_shift(s, n, ne + 1, |b: u8| b == 32);
        lemma_run_end_bounds(s, ne + 1, |b: u8| b == 32);
        let vs = space_end(s, ne + 1);
        lemma_run_end_shift(s, n, vs, |b: u8| is_hval_byte(b));
        lemma_run_end_bounds(s, vs, |b: u8| is_hval_byte(b));
        let ve = hval_end(s, vs);
        if ve < s.len() {
            assert(s.skip(n)[ve - n] == s[ve]);
        }
    }
}

/// The headers block looks the same from the suffix.
proof fn lemma_headers_shift(s: Seq<u8>, n: int, p: int)
    requires
        0 <= n <= p <= s.len(),
    ensures
        spec_headers(s, p) == (match spec_headers(s.skip(n), p - n) {
            Ok((hs, e)) => Ok::<(Seq<GHeader>, int), int>(
                (hs.map_values(|h: GHeader| shift_header(h, n)), e + n),
            ),
            Err(q) => Err::<(Seq<GHeader>, int), int>(q + n),
        }),
    decreases s.len() - p,
{
    assert(s.skip(n).len() == s.len() - n);
    lemma_header_line_shift(s, n, p);
    lemma_markers_shift(s, n, p);
    if p == s.len() {
        assert(Seq::<GHeader>::empty().map_values(|h: GHeader| shift_header(h, n))
            =~= Seq::<GHeader>::empty());
    } else {
        assert(s.skip(n)[p - n] == s[p]);
        match spec_header_line(s, p) {
            Some((h, q)) => {
                lemma_header_line_bounds(s, p);
                lemma_headers_shift(s, n, q);
                match spec_headers(s.skip(n), q - n) {
                    Ok((hs, e)) => {
                        let f = |x: GHeader| shift_header(x, n);
                        let h0 = spec_header_line(s.skip(n), p - n)->Some_0.0;
                        assert((seq![h0] + hs).map_values(f) =~= seq![h] + hs.map_values(f));
                    },
                    Err(_) => {},
                }
            },
            None => {
                if s[p] == LF {
                    assert(Seq::<GHeader>::empty().map_values(|h: GHeader| shift_header(h, n))
                        =~= Seq::<GHeader>::empty());
                } else if starts_title(s, p) || starts_script(s, p) {
                    assert(Seq::<GHeader>::empty().map_values(|h: GHeader| shift_header(h, n))
                        =~= Seq::<GHeader>::empty());
                }
            },
        }
    }
}

/// The body boundary looks the same from the suffix.
proof fn lemma_body_end_shift(s: Seq<u8>, n: int, start: int, p: int)
    requires
        0 <= n <= start <= p <= s.len(),
    ensures
        body_end(s, start, p) == n + body_end(s.skip(n), start - n, p - n),
    decreases s.len() - p,
{
    assert(s.skip(n).len() == s.len() - n);
    lemma_markers_shift(s, n, p);
    if p < s.len() {
        if p > start {
            assert(s.skip(n)[p - n - 1] == s[p - 1]);
        }
        assert(is_boundary(s, start, p) == is_boundary(s.skip(n), start - n, p - n));
        if !is_boundary(s, start, p) {
            lemma_body_end_shift(s, n, start, p + 1);
        }
    }
}

/// The body rule looks the same from the suffix.
proof fn lemma_body_shift(s: Seq<u8>, n: int, p: int)
    requires
        0 <= n <= p <= s.len(),
    ensures
        spec_body(s, p).0 == shift_gbody(spec_body(s.skip(n), p - n).0, n),
        spec_body(s, p).1 == n + spec_body(s.skip(n), p - n).1,
{
    assert(s.skip(n).len() == s.len() - n);
    lemma_markers_shift(s, n, p);
    if starts_file_ref(s, p) {
        lemma_run_end_shift(s, n, p + 2, |b: u8| b != LF);
    } else {
        lemma_body_end_shift(s, n, p, p);
        lemma_run_end_shift(s, n, p, |b: u8| b == LF);
    }
}

/// The script rule looks the same from the suffix.
proof fn lemma_script_shift(s: Seq<u8>, n: int, p: int)
    requires
        0 <= n <= p <= s.len(),
    ensures
        spec_script(s, p).0 == shift_gscript(spec_script(s.skip(n), p - n).0, n),
        spec_script(s, p).1 == n + spec_script(s.skip(n), p - n).1,
{
    assert(s.skip(n).len() == s.len() - n);
    lemma_markers_shift(s, n, p);
    if starts_script(s, p) {
        lemma_markers_shift(s, n, p + 2);
        lemma_seek_close_shift(s, n, p + 4);
        crate::model::lemma_seek_close_bounds(s, p + 4);
        match seek_close(s, p + 4) {
            Some(q) => {
                lemma_run_end_shift(s, n, q + 2, |b: u8| b == LF);
            },
            None => {},
        }
        lemma_run_end_shift(s, n, p + 2, |b: u8| b != LF);
        lemma_run_end_bounds(s, p + 2, |b: u8| b != LF);
        let e = line_end(s, p + 2);
        lemma_run_end_shift(s, n, e, |b: u8| b == LF);
    }
}

/// The whole request rule looks the same from the suffix.
proof fn lemma_request_shift(s: Seq<u8>, n: int, p: int)
    requires
        0 <= n <= p <= s.len(),
    ensures
        spec_request(s, p) == (match spec_request(s.skip(n), p - n) {
            Ok((g, q)) => Ok::<(GReq, int), GErr>((shift_greq(g, n), q + n)),
            Err(e) => Err::<(GReq, int), GErr>(GErr { kind: e.kind, at: e.at + n }),
        }),
{
    let u = s.skip(n);
    assert(u.len() == s.len() - n);
    lemma_run_end_shift(s, n, p, |b: u8| b == LF);
    let p1 = lf_end(s, p);
    lemma_run_end_bounds(s, p, |b: u8| b == LF);
    lemma_title_shift(s, n, p1);
    let p2 = spec_title_opt(s, p1).1;
    lemma_title_bounds(u, p1 - n);
    lemma_request_line_shift(s, n, p2);
    match spec_request_line(s, p2) {
        None => {},
        Some((line, p3)) => {
            lemma_request_line_bounds(u, p2 - n);
            lemma_headers_shift(s, n, p3);
            match spec_headers(s, p3) {
                Err(_) => {},
                Ok((hs, p4)) => {
                    lemma_headers_bounds(u, p3 - n);
                    lemma_body_shift(s, n, p4);
                    lemma_body_bounds(u, p4 - n);
                    let p5 = spec_body(s, p4).1;
                    lemma_script_shift(s, n, p5);
                },
            }
        },
    }
}

/// Reparsing a remainder as a fresh input: the request rule applied to the
/// whole buffer at `n` and applied to the suffix `s.skip(n)` at its start
/// agree exactly — the same result shape with every position shifted by
/// `n`, so the remainder that `parse_one` returns reparses to the same
/// next request that parsing the full document would produce there.
pub proof fn lemma_remainder_reparse(s: Seq<u8>, n: int)
    requires
        0 <= n <= s.len(),
    ensures
        spec_request(s, n) == (match spec_request(s.skip(n), 0) {
            Ok((g, q)) => Ok::<(GReq, int), GErr>((shift_greq(g, n), q + n)),
            Err(e) => Err::<(GReq, int), GErr>(GErr { kind: e.kind, at: e.at + n }),
        }),
{
    lemma_request_shift(s, n, n);
}

/// Continuing a document parse at a cut is the same as parsing the
/// remainder as a fresh document: every request the full parse still owes
/// is the shifted image of the remainder's own parse, and the two fail
/// alike.  With the cut after the first request, this says that the whole
/// document is its first request followed by the reparse of the remainder.
pub proof fn lemma_document_tail_reparse(s: Seq<u8>, n: int, p: int)
    requires
        0 <= n <= p <= s.len(),
    ensures
        spec_document(s, p) == (match spec_document(s.skip(n), p - n) {
            Ok(gs) => Ok::<Seq<GReq>, GErr>(gs.map_values(|g: GReq| shift_greq(g, n))),
            Err(e) => Err::<Seq<GReq>, GErr>(GErr { kind: e.kind, at: e.at + n }),
        }),
    decreases s.len() - p,
{
    let u = s.skip(n);
    assert(u.len() == s.len() - n);
    lemma_request_shift(s, n, p);
    lemma_request_bounds(s, p);
    let f = |g: GReq| shift_greq(g, n);
    match spec_request(s, p) {
        Err(_) => {},
        Ok((r, q)) => {
            let r0 = spec_request(u, p - n)->Ok_0.0;
            if q == s.len() {
                assert(seq![r0].map_values(f) =~= seq![r]);
            } else {
                lemma_document_tail_reparse(s, n, q);
                match spec_document(u, q - n) {
                    Err(_) => {},
                    Ok(gs) => {
                        assert((seq![r0] + gs).map_values(f) =~= seq![r] + gs.map_values(f));
                    },
                }
            }
        },
    }
}

} // verus!
