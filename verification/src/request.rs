//! The request and document assemblers.
//!
//! [`parse_request`] runs the grammar rules in order — blank lines, title,
//! request line, headers, body, script — threading the position through;
//! [`parse_multiple_request`] repeats it until the input is exhausted.
//! Both are proved equal to `spec_request` and `spec_document`: a document
//! parse returns every request in source order, or the first positioned
//! failure, never a partial result.

use vstd::prelude::*;

use crate::ast::Document;
use crate::ast::GReq;
use crate::ast::Method;
use crate::ast::Request;
use crate::ast::request_matches;
use crate::err::ParseErr;
use crate::grammar::parse_headers;
use crate::grammar::parse_request_body;
use crate::grammar::parse_request_title;
use crate::grammar::parse_script;
use crate::grammar::request_line;
use crate::lex::scan_lf;
use crate::model::GErr;
use crate::model::lemma_request_bounds;
use crate::model::spec_document;
use crate::model::spec_request;
use crate::span::Span;
use crate::span::fragment;
use crate::span::make_span;

verus! {

/// Parse exactly one request at `pos`: skip blank lines, then the optional
/// title, the mandatory request line, the headers block, the body and the
/// script handler.  Success returns the request and the offset of the
/// unconsumed remainder, always strictly past `pos`; a hard failure in the
/// request line or a header line aborts with its position.
pub fn parse_request(src: &[u8], pos: usize) -> (r: Result<(Request, usize), ParseErr>)
    requires
        pos <= src.len(),
        src.len() < usize::MAX,
    ensures
        match spec_request(src@, pos as int) {
            Ok((g, q)) => r matches Ok(x) && request_matches(src@, x.0, g) && x.1 == q && pos < q
                <= src@.len(),
            Err(ge) => r matches Err(e) && e.kind == ge.kind && e.span@.off == ge.at
                && e.span@.len == 0 && e.span.wf(src@),
        },
{
    proof {
        lemma_request_bounds(src@, pos as int);
    }
    let p1 = scan_lf(src, pos);
    let (title, p2) = parse_request_title(src, p1);
    let (line, p3) = match request_line(src, p2) {
        Ok(x) => x,
        Err(e) => {
            return Err(e);
        },
    };
    let (headers, p4) = match parse_headers(src, p3) {
        Ok(x) => x,
        Err(e) => {
            return Err(e);
        },
    };
    let (body, p5) = parse_request_body(src, p4);
    let (script, p6) = parse_script(src, p5);
    let mtext = fragment(src, &line.method);
    let method = Method::from_token(mtext.as_slice());
    let target = fragment(src, &line.target);
    Ok(
        (
            Request {
                title,
                method,
                target,
                version: line.version,
                headers,
                body,
                script,
            },
            p6,
        ),
    )
}

/// Parse a whole document: requests end to end until the input is
/// exhausted.  All-or-nothing — the ordered sequence of every request, or
/// the first positioned failure; never a partial document.
pub fn parse_multiple_request(src: &[u8]) -> (r: Result<Vec<Request>, ParseErr>)
    requires
        src.len() < usize::MAX,
    ensures
        match spec_document(src@, 0) {
            Ok(gs) => r matches Ok(v) && v@.len() == gs.len() && (forall|i: int|
                0 <= i < gs.len() ==> request_matches(src@, v@[i], gs[i])),
            Err(ge) => r matches Err(e) && e.kind == ge.kind && e.span@.off == ge.at
                && e.span@.len == 0 && e.span.wf(src@),
        },
{
    let mut out: Vec<Request> = Vec::new();
    let ghost mut gacc: Seq<GReq> = Seq::empty();
    let mut p: usize = 0;
    loop
        invariant_except_break
            p <= src.len(),
            src.len() < usize::MAX,
            out@.len() == gacc.len(),
            forall|i: int| 0 <= i < gacc.len() ==> request_matches(src@, out@[i], gacc[i]),
            match spec_document(src@, p as int) {
                Ok(gs) => spec_document(src@, 0) == Ok::<Seq<GReq>, GErr>(gacc + gs),
                Err(ge) => spec_document(src@, 0) == Err::<Seq<GReq>, GErr>(ge),
            },
        ensures
            out@.len() == gacc.len(),
            forall|i: int| 0 <= i < gacc.len() ==> request_matches(src@, out@[i], gacc[i]),
            spec_document(src@, 0) == Ok::<Seq<GReq>, GErr>(gacc),
        decreases src.len() - p,
    {
        match parse_request(src, p) {
            Ok((req, q)) => {
                proof {
                    let g = spec_request(src@, p as int)->Ok_0.0;
                    if q < src.len() {
                        let tail = spec_document(src@, q as int);
                        if tail is Ok {
                            let gs2 = tail->Ok_0;
                            assert(gacc + (seq![g] + gs2) =~= gacc.push(g) + gs2);
                        }
                    } else {
                        assert(gacc + seq![g] =~= gacc.push(g));
                    }
                    gacc = gacc.push(g);
                }
                out.push(req);
                if q == src.len() {
                    break ;
                }
                p = q;
            },
            Err(e) => {
                return Err(e);
            },
        }
    }
    Ok(out)
}

/// Parse a whole document, attaching `source_name` for diagnostics only.
pub fn parse(source_name: &str, src: &[u8]) -> (r: Result<Document, ParseErr>)
    requires
        src.len() < usize::MAX,
    ensures
        match spec_document(src@, 0) {
            Ok(gs) => r matches Ok(d) && d.source_name@ == source_name@ && d.requests@.len()
                == gs.len() && (forall|i: int|
                0 <= i < gs.len() ==> request_matches(src@, d.requests@[i], gs[i])),
            Err(ge) => r matches Err(e) && e.kind == ge.kind && e.span@.off == ge.at
                && e.span@.len == 0 && e.span.wf(src@),
        },
{
    match parse_multiple_request(src) {
        Ok(requests) => Ok(Document { source_name: source_name.to_string(), requests }),
        Err(e) => Err(e),
    }
}

/// Parse exactly one request from the start of the input, returning the
/// unconsumed remainder as a span for incremental use.
pub fn parse_one(src: &[u8]) -> (r: Result<(Request, Span), ParseErr>)
    requires
        src.len() < usize::MAX,
    ensures
        match spec_request(src@, 0) {
            Ok((g, q)) => r matches Ok(x) && request_matches(src@, x.0, g) && x.1@.off == q
                && x.1@.end() == src@.len() && x.1.wf(src@),
            Err(ge) => r matches Err(e) && e.kind == ge.kind && e.span@.off == ge.at
                && e.span@.len == 0 && e.span.wf(src@),
        },
{
    match parse_request(src, 0) {
        Ok((req, q)) => Ok((req, make_span(src, q, src.len()))),
        Err(e) => Err(e),
    }
}

} // verus!
