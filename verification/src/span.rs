use vstd::prelude::*;

verus! {

/// A half-open byte range `[start, end)` into the source text.
#[derive(Clone, Copy, Debug, PartialEq, Eq, Structural)]
pub struct Span {
    pub start: u32,
    pub end: u32,
}

impl Span {
    /// A span is valid for a source of length `n` when it is ordered and
    /// stays within bounds.
    pub open spec fn wf(self, n: int) -> bool {
        self.start <= self.end && self.end <= n
    }

    pub fn new(start: u32, end: u32) -> (r: Span)
        ensures
            r == (Span { start, end }),
    {
        Span { start, end }
    }

    /// Whether `self` fully covers `inner`: the containment test the
    /// sibling resolver uses to locate a node inside a statement list.
    pub open spec fn spec_contains(self, inner: Span) -> bool {
        self.start <= inner.start && inner.end <= self.end
    }

    pub fn contains(self, inner: Span) -> (r: bool)
        ensures
            r == self.spec_contains(inner),
    {
        self.start <= inner.start && inner.end <= self.end
    }
}

} // verus!
