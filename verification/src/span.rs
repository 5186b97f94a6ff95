use vstd::prelude::*;

verus! {

/// A half-open byte region of the original source text, attached to every
/// syntax tree node as its annotation: `offset` is the index of the first
/// byte, `length` the number of bytes covered.
#[derive(Clone, Copy, Debug, PartialEq, Eq, Hash, Structural)]
pub struct Span {
    pub offset: usize,
    pub length: usize,
}

impl View for Span {
    type V = Span;

    open spec fn view(&self) -> Span {
        *self
    }
}

impl Span {
    pub fn new(offset: usize, length: usize) -> (s: Span)
        ensures
            s == (Span { offset, length }),
    {
        Span { offset, length }
    }

    /// The index one past the last byte covered, as a mathematical integer.
    pub open spec fn end(self) -> int {
        self.offset + self.length
    }
}

} // verus!
