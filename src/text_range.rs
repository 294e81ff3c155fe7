use vstd::prelude::*;

verus! {

/// A half-open span `[start, end)` of offsets into the original source text.
#[derive(Clone, Copy, Debug, PartialEq, Eq, Structural)]
pub struct TextRange {
    pub start: u32,
    pub end: u32,
}

impl TextRange {
    /// A well-formed range does not end before it starts.
    pub open spec fn wf(self) -> bool {
        self.start <= self.end
    }

    /// Whether `offset` lies in the range, both ends included (a cursor may
    /// stand just before or just after the text it points at).
    pub open spec fn spec_contains_inclusive(self, offset: u32) -> bool {
        self.start <= offset && offset <= self.end
    }

    pub open spec fn spec_len(self) -> int {
        self.end - self.start
    }

    pub fn new(start: u32, end: u32) -> (r: TextRange)
        requires
            start <= end,
        ensures
            r.start == start,
            r.end == end,
            r.wf(),
    {
        TextRange { start, end }
    }

    pub fn contains_inclusive(&self, offset: u32) -> (r: bool)
        ensures
            r == self.spec_contains_inclusive(offset),
    {
        self.start <= offset && offset <= self.end
    }
}

} // verus!
