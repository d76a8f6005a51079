//! Positioned parse failures.
//!
//! Every error names the failing grammar element and carries the offset,
//! line and column where parsing stopped, so a caller can point at the
//! offending byte of the source.

use vstd::prelude::*;

use crate::span::Span;

verus! {

/// What failed.
#[derive(Clone, Copy, Debug, PartialEq, Eq, Structural)]
pub enum ErrKind {
    /// The mandatory `method SP target [SP version]` line is malformed.
    RequestLineInvalid,
    /// A line in the headers block is neither a complete header line nor
    /// a block terminator (blank line, script marker, new title).
    HeaderLineInvalid,
    /// Reserved: the body boundary rule itself always resolves, so this
    /// kind is declared for completeness and never produced.
    BodyBoundaryUnresolvable,
    /// Catch-all for failures outside the named elements.
    Unexpected,
}

/// A positioned parse failure.  The span marks where parsing stopped
/// (its length is zero); the message says what was expected.
#[derive(Clone, Debug)]
pub struct ParseErr {
    pub kind: ErrKind,
    pub span: Span,
    pub message: String,
}

impl ParseErr {
    /// Build an error of kind `kind` at `span`.
    pub fn new(kind: ErrKind, message: String, span: Span) -> (r: ParseErr)
        ensures
            r.kind == kind,
            r.span == span,
            r.message@ == message@,
    {
        ParseErr { kind, span, message }
    }

    /// Where parsing stopped.
    pub fn span(&self) -> (r: &Span)
        ensures
            r == self.span,
    {
        &self.span
    }

    /// 1-based line of the failure.
    pub fn line(&self) -> (r: usize)
        ensures
            r == self.span.line,
    {
        self.span.line
    }

    /// Byte offset of the failure.
    pub fn offset(&self) -> (r: usize)
        ensures
            r == self.span.off,
    {
        self.span.off
    }
}

} // verus!
