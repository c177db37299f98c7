use vstd::prelude::*;

verus! {

/// A half-open range of byte offsets into the source buffer. Every token,
/// expression and diagnostic location is a span; the buffer itself is kept
/// by the cursor, and a span is resolved to text only for display.
#[derive(Clone, Copy, Debug, PartialEq, Eq, Structural)]
pub struct Span {
    pub start: usize,
    pub end: usize,
}

impl Span {
    /// An empty span pointing at a single position ("here").
    pub fn at(pos: usize) -> (r: Span)
        ensures
            r == (Span { start: pos, end: pos }),
    {
        Span { start: pos, end: pos }
    }

    /// Whether the span lies within a buffer of `len` bytes.
    pub open spec fn wf(self, len: int) -> bool {
        self.start <= self.end <= len
    }
}

} // verus!
