use vstd::prelude::*;

verus! {

/// A byte range `start..end` of the source text.
#[derive(Clone, Copy, Debug, PartialEq, Eq, Structural)]
pub struct Span {
    pub start: u32,
    pub end: u32,
}

impl Span {
    pub fn new(start: u32, end: u32) -> (r: Span)
        ensures
            r.start == start,
            r.end == end,
    {
        Span { start, end }
    }

    /// The span from the start of `self` to the end of `other`.
    pub fn to(self, other: Span) -> (r: Span)
        ensures
            r.start == self.start,
            r.end == other.end,
    {
        Span { start: self.start, end: other.end }
    }
}

} // verus!
