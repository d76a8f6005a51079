//! The parsed shapes: methods, versions, headers, bodies, script handlers,
//! requests and documents, together with their ghost mirrors.
//!
//! Exec values capture text as [`Span`]s into the caller's buffer; the ghost
//! mirrors (`GHeader`, `GBody`, ...) carry the same ranges as [`GSpan`]s and
//! are what the grammar model in `model` speaks about.

use vstd::prelude::*;

use crate::span::GSpan;
use crate::span::Span;
use crate::span::text_of;

verus! {

/// Request method: the closed well-known set, or any other token verbatim.
/// Matching is case-sensitive and exact.
#[derive(Clone, Debug)]
pub enum Method {
    Get,
    Post,
    Head,
    Options,
    Put,
    Patch,
    Delete,
    Custom(Vec<u8>),
}

/// The well-known method named by `text`, if any.
pub open spec fn spec_method_of(text: Seq<u8>) -> Option<Method> {
    if text == seq![71u8, 69u8, 84u8] {  // GET
        Some(Method::Get)
    } else if text == seq![80u8, 79u8, 83u8, 84u8] {  // POST
        Some(Method::Post)
    } else if text == seq![72u8, 69u8, 65u8, 68u8] {  // HEAD
        Some(Method::Head)
    } else if text == seq![79u8, 80u8, 84u8, 73u8, 79u8, 78u8, 83u8] {  // OPTIONS
        Some(Method::Options)
    } else if text == seq![80u8, 85u8, 84u8] {  // PUT
        Some(Method::Put)
    } else if text == seq![80u8, 65u8, 84u8, 67u8, 72u8] {  // PATCH
        Some(Method::Patch)
    } else if text == seq![68u8, 69u8, 76u8, 69u8, 84u8, 69u8] {  // DELETE
        Some(Method::Delete)
    } else {
        None
    }
}

/// `m` is what the method token `text` classifies to: the matching
/// well-known method, else `Custom` holding the token verbatim.
pub open spec fn method_is(m: Method, text: Seq<u8>) -> bool {
    match spec_method_of(text) {
        Some(k) => m == k,
        None => m matches Method::Custom(v) && v@ == text,
    }
}

impl Method {
    /// Classify a method token.
    pub fn from_token(b: &[u8]) -> (r: Method)
        ensures
            method_is(r, b@),
    {
        let n = b.len();
        if n == 3 && b[0] == 71 && b[1] == 69 && b[2] == 84 {
            proof {
                assert(b@ =~= seq![71u8, 69u8, 84u8]);
            }
            Method::Get
        } else if n == 4 && b[0] == 80 && b[1] == 79 && b[2] == 83 && b[3] == 84 {
            proof {
                assert(b@ =~= seq![80u8, 79u8, 83u8, 84u8]);
            }
            Method::Post
        } else if n == 4 && b[0] == 72 && b[1] == 69 && b[2] == 65 && b[3] == 68 {
            proof {
                assert(b@ =~= seq![72u8, 69u8, 65u8, 68u8]);
            }
            Method::Head
        } else if n == 7 && b[0] == 79 && b[1] == 80 && b[2] == 84 && b[3] == 73 && b[4] == 79
            && b[5] == 78 && b[6] == 83 {
            proof {
                assert(b@ =~= seq![79u8, 80u8, 84u8, 73u8, 79u8, 78u8, 83u8]);
            }
            Method::Options
        } else if n == 3 && b[0] == 80 && b[1] == 85 && b[2] == 84 {
            proof {
                assert(b@ =~= seq![80u8, 85u8, 84u8]);
            }
            Method::Put
        } else if n == 5 && b[0] == 80 && b[1] == 65 && b[2] == 84 && b[3] == 67 && b[4] == 72 {
            proof {
                assert(b@ =~= seq![80u8, 65u8, 84u8, 67u8, 72u8]);
            }
            Method::Patch
        } else if n == 6 && b[0] == 68 && b[1] == 69 && b[2] == 76 && b[3] == 69 && b[4] == 84
            && b[5] == 69 {
            proof {
                assert(b@ =~= seq![68u8, 69u8, 76u8, 69u8, 84u8, 69u8]);
            }
            Method::Delete
        } else {
            proof {
                assert(spec_method_of(b@) is None);
            }
            Method::Custom(vstd::slice::slice_to_vec(b))
        }
    }
}

impl PartialEq for Method {
    #[verifier::loop_isolation(false)]
    fn eq(&self, other: &Method) -> (r: bool) {
        match (self, other) {
            (Method::Get, Method::Get) => true,
            (Method::Post, Method::Post) => true,
            (Method::Head, Method::Head) => true,
            (Method::Options, Method::Options) => true,
            (Method::Put, Method::Put) => true,
            (Method::Patch, Method::Patch) => true,
            (Method::Delete, Method::Delete) => true,
            (Method::Custom(a), Method::Custom(b)) => {
                if a.len() != b.len() {
                    proof {
                        assert(a@ != b@) by {
                            if a@ == b@ {
                                assert(a@.len() == b@.len());
                            }
                        }
                    }
                    return false;
                }
                let mut i: usize = 0;
                while i < a.len()
                    invariant
                        i <= a.len() == b.len(),
                        forall|j: int| 0 <= j < i ==> a@[j] == b@[j],
                    decreases a.len() - i,
                {
                    if a[i] != b[i] {
                        proof {
                            assert(a@ != b@) by {
                                if a@ == b@ {
                                    assert(a@[i as int] == b@[i as int]);
                                }
                            }
                        }
                        return false;
                    }
                    i = i + 1;
                }
                proof {
                    assert(a@ =~= b@);
                }
                true
            },
            _ => false,
        }
    }
}

impl vstd::std_specs::cmp::PartialEqSpecImpl for Method {
    open spec fn obeys_eq_spec() -> bool {
        true
    }

    open spec fn eq_spec(&self, other: &Method) -> bool {
        match (self, other) {
            (Method::Get, Method::Get) => true,
            (Method::Post, Method::Post) => true,
            (Method::Head, Method::Head) => true,
            (Method::Options, Method::Options) => true,
            (Method::Put, Method::Put) => true,
            (Method::Patch, Method::Patch) => true,
            (Method::Delete, Method::Delete) => true,
            (Method::Custom(a), Method::Custom(b)) => a@ == b@,
            _ => false,
        }
    }
}

/// Protocol version; absent version text defaults to `V11`.
#[derive(Clone, Copy, Debug, PartialEq, Eq, Structural)]
pub enum Version {
    V10,
    V11,
}

/// One header line: field name and value, captured as spans.
/// Duplicate names are distinct entries; order is preserved.
#[derive(Clone, Copy, Debug, PartialEq, Eq, Structural)]
pub struct Header {
    pub name: Span,
    pub value: Span,
}

/// Ghost mirror of [`Header`].
pub struct GHeader {
    pub name: GSpan,
    pub value: GSpan,
}

impl View for Header {
    type V = GHeader;

    open spec fn view(&self) -> GHeader {
        GHeader { name: self.name@, value: self.value@ }
    }
}

impl Header {
    /// Equality on captured text only: two entries are the same header
    /// exactly when their name and value texts agree, wherever each sits
    /// in its buffer.
    pub fn same_text(&self, src: &[u8], other: &Header, other_src: &[u8]) -> (r: bool)
        requires
            self.name@.inside(src@.len() as int),
            self.value@.inside(src@.len() as int),
            other.name@.inside(other_src@.len() as int),
            other.value@.inside(other_src@.len() as int),
        ensures
            r == (self.name.spec_text(src@) == other.name.spec_text(other_src@)
                && self.value.spec_text(src@) == other.value.spec_text(other_src@)),
    {
        crate::span::same_text(src, &self.name, other_src, &other.name) && crate::span::same_text(
            src,
            &self.value,
            other_src,
            &other.value,
        )
    }
}

/// Request body: captured bytes, an input-file reference, or nothing.
#[derive(Clone, Copy, Debug, PartialEq, Eq, Structural)]
pub enum MessageBody {
    Bytes(Span),
    Empty,
    File(Span),
}

/// Ghost mirror of [`MessageBody`].
pub enum GBody {
    Bytes(GSpan),
    Empty,
    File(GSpan),
}

impl View for MessageBody {
    type V = GBody;

    open spec fn view(&self) -> GBody {
        match *self {
            MessageBody::Bytes(sp) => GBody::Bytes(sp@),
            MessageBody::Empty => GBody::Empty,
            MessageBody::File(sp) => GBody::File(sp@),
        }
    }
}

impl MessageBody {
    /// The captured span, if the body holds one.
    pub fn get_span(&self) -> (r: Option<&Span>)
        ensures
            match r {
                Some(sp) => !(self is Empty) && (self@ == GBody::Bytes(sp@) || self@ == GBody::File(
                    sp@,
                )),
                None => self is Empty,
            },
    {
        match self {
            MessageBody::Bytes(x) => Some(x),
            MessageBody::Empty => None,
            MessageBody::File(x) => Some(x),
        }
    }
}

/// Script handler attached to a request; absence is success, not failure.
#[derive(Clone, Copy, Debug, PartialEq, Eq, Structural)]
pub enum ScriptHandler {
    File(Span),
    Inline(Span),
    Empty,
}

/// Ghost mirror of [`ScriptHandler`].
pub enum GScript {
    File(GSpan),
    Inline(GSpan),
    Empty,
}

impl View for ScriptHandler {
    type V = GScript;

    open spec fn view(&self) -> GScript {
        match *self {
            ScriptHandler::File(sp) => GScript::File(sp@),
            ScriptHandler::Inline(sp) => GScript::Inline(sp@),
            ScriptHandler::Empty => GScript::Empty,
        }
    }
}

/// The mandatory first line of a request: method and target tokens plus
/// the protocol version.
#[derive(Clone, Copy, Debug, PartialEq, Eq, Structural)]
pub struct RequestLine {
    pub method: Span,
    pub target: Span,
    pub version: Version,
}

/// Ghost mirror of [`RequestLine`].
pub struct GReqLine {
    pub method: GSpan,
    pub target: GSpan,
    pub version: Version,
}

impl View for RequestLine {
    type V = GReqLine;

    open spec fn view(&self) -> GReqLine {
        GReqLine { method: self.method@, target: self.target@, version: self.version }
    }
}

/// One parsed request definition.  Method, target and version are always
/// present; everything else defaults to an explicit absent variant.
#[derive(Clone, Debug)]
pub struct Request {
    pub title: Option<Span>,
    pub method: Method,
    pub target: Vec<u8>,
    pub version: Version,
    pub headers: Vec<Header>,
    pub body: MessageBody,
    pub script: ScriptHandler,
}

/// Ghost mirror of [`Request`]: every captured piece as a range into the
/// source, with the method still a raw token span.
pub struct GReq {
    pub title: Option<GSpan>,
    pub method: GSpan,
    pub target: GSpan,
    pub version: Version,
    pub headers: Seq<GHeader>,
    pub body: GBody,
    pub script: GScript,
}

/// The ghost mirrors of a sequence of headers, in order.
pub open spec fn hviews(hs: Seq<Header>) -> Seq<GHeader> {
    hs.map_values(|h: Header| h@)
}

/// Every header in `hs` has well-formed spans over `s`.
pub open spec fn headers_wf(s: Seq<u8>, hs: Seq<Header>) -> bool {
    forall|i: int|
        0 <= i < hs.len() ==> (#[trigger] hs[i]).name.wf(s) && hs[i].value.wf(s)
}

/// The body's spans lie inside `s` with true positions.
pub open spec fn body_wf(s: Seq<u8>, b: MessageBody) -> bool {
    match b {
        MessageBody::Bytes(sp) => sp.wf(s),
        MessageBody::Empty => true,
        MessageBody::File(sp) => sp.wf(s),
    }
}

/// The script's spans lie inside `s` with true positions.
pub open spec fn script_wf(s: Seq<u8>, h: ScriptHandler) -> bool {
    match h {
        ScriptHandler::File(sp) => sp.wf(s),
        ScriptHandler::Inline(sp) => sp.wf(s),
        ScriptHandler::Empty => true,
    }
}

/// The exec request `r` realises the ghost request `g` over source `s`:
/// same captured ranges with well-formed positions, the method classified
/// from its token, and the target text copied out verbatim.
pub open spec fn request_matches(s: Seq<u8>, r: Request, g: GReq) -> bool {
    &&& match (r.title, g.title) {
        (Some(t), Some(gt)) => t@ == gt && t.wf(s),
        (None, None) => true,
        _ => false,
    }
    &&& method_is(r.method, text_of(s, g.method))
    &&& r.target@ == text_of(s, g.target)
    &&& r.version == g.version
    &&& hviews(r.headers@) == g.headers
    &&& headers_wf(s, r.headers@)
    &&& r.body@ == g.body && body_wf(s, r.body)
    &&& r.script@ == g.script && script_wf(s, r.script)
}

/// A whole parsed document: its requests in source order, plus the source
/// name used for diagnostics.  Built once, immutable afterwards.
#[derive(Clone, Debug)]
pub struct Document {
    pub source_name: String,
    pub requests: Vec<Request>,
}

} // verus!
