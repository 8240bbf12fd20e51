//! Source positions and the byte ranges that dependency records carry.

use vstd::prelude::*;

verus! {

/// A region of the module's source text, as the parser reports it: `lo` and
/// `hi` are one-based byte positions, and position zero marks a synthesized
/// node that has no place in the text.
#[derive(Clone, Copy, Debug, PartialEq, Eq, Structural)]
pub struct Span {
    pub lo: u32,
    pub hi: u32,
}

/// The zero-based byte offset that a one-based position stands for.
/// Position zero, which has no place in the text, is given offset zero.
pub open spec fn real_offset(pos: u32) -> u32 {
    if pos == 0 {
        0u32
    } else {
        (pos - 1) as u32
    }
}

impl Span {
    pub fn new(lo: u32, hi: u32) -> (span: Span)
        ensures
            span == (Span { lo, hi }),
    {
        Span { lo, hi }
    }

    /// Whether both ends of the region are places in the text.
    pub open spec fn located(&self) -> bool {
        self.lo > 0 && self.hi > 0
    }

    /// Whether both ends of the region are places in the text.
    pub fn is_located(&self) -> (located: bool)
        ensures
            located == self.located(),
    {
        self.lo > 0 && self.hi > 0
    }

    pub open spec fn spec_real_lo(&self) -> u32 {
        real_offset(self.lo)
    }

    pub open spec fn spec_real_hi(&self) -> u32 {
        real_offset(self.hi)
    }

    /// Zero-based byte offset of the first byte of a region that starts at
    /// a place in the text.
    #[verifier::when_used_as_spec(spec_real_lo)]
    pub fn real_lo(&self) -> (offset: u32)
        requires
            self.lo > 0,
        ensures
            offset == self.lo - 1,
            offset == self.spec_real_lo(),
    {
        self.lo - 1
    }

    /// Zero-based byte offset just past the last byte of a region that
    /// ends at a place in the text.
    #[verifier::when_used_as_spec(spec_real_hi)]
    pub fn real_hi(&self) -> (offset: u32)
        requires
            self.hi > 0,
        ensures
            offset == self.hi - 1,
            offset == self.spec_real_hi(),
    {
        self.hi - 1
    }
}

/// A region of the text by zero-based byte offsets, as diagnostics address
/// it. A region without a place in the text is the empty region at the
/// start.
#[derive(Clone, Copy, Debug, PartialEq, Eq, Structural)]
pub struct ErrorSpan {
    pub start: u32,
    pub end: u32,
}

impl ErrorSpan {
    pub fn new(start: u32, end: u32) -> (span: ErrorSpan)
        ensures
            span == (ErrorSpan { start, end }),
    {
        ErrorSpan { start, end }
    }

    /// The offsets that `span` covers.
    pub open spec fn of(span: Span) -> ErrorSpan {
        ErrorSpan { start: real_offset(span.lo), end: real_offset(span.hi) }
    }
}

impl From<Span> for ErrorSpan {
    fn from(span: Span) -> (converted: ErrorSpan) {
        ErrorSpan { start: span.lo.saturating_sub(1), end: span.hi.saturating_sub(1) }
    }
}

impl vstd::std_specs::convert::FromSpecImpl<Span> for ErrorSpan {
    open spec fn obeys_from_spec() -> bool {
        true
    }

    open spec fn from_spec(span: Span) -> ErrorSpan {
        ErrorSpan::of(span)
    }
}

/// A half-open range of zero-based byte offsets in the module's source text,
/// the form in which code generation addresses text to keep or replace.
#[derive(Clone, Copy, Debug, PartialEq, Eq, Structural)]
pub struct DependencyLocation {
    pub start: u32,
    pub end: u32,
}

impl DependencyLocation {
    pub fn new(start: u32, end: u32) -> (location: DependencyLocation)
        ensures
            location == (DependencyLocation { start, end }),
    {
        DependencyLocation { start, end }
    }

    /// The range of offsets that `span` covers.
    pub open spec fn of(span: Span) -> DependencyLocation {
        DependencyLocation { start: span.spec_real_lo(), end: span.spec_real_hi() }
    }

    /// The range of offsets that `span` covers.
    pub fn from_span(span: &Span) -> (location: DependencyLocation)
        requires
            span.located(),
        ensures
            location == DependencyLocation::of(*span),
    {
        DependencyLocation::new(span.real_lo(), span.real_hi())
    }
}

} // verus!
