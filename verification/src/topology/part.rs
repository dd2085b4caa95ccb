//! Draw-call groups of an index buffer.

use vstd::prelude::*;

verus! {

/// The kind of primitive that a part draws. Triangles are the only kind so
/// far; others may follow.
#[non_exhaustive]
#[derive(Clone, Copy, PartialEq, Eq, Debug, Structural)]
pub enum Topology {
    /// Three indices to a triangle.
    TRIANGLE,
}

/// One contiguous range of an index buffer: `count` primitives, the first
/// starting at position `index`.
#[derive(Clone, Copy, PartialEq, Eq, Debug, Structural)]
pub struct Part {
    pub index: usize,
    pub count: usize,
    pub topology: Topology,
}

impl Part {
    /// The part that draws `count` primitives of kind `topology` from
    /// position `index` on.
    pub fn create(topology: Topology, index: usize, count: usize) -> (part: Part)
        ensures
            part == (Part { index, count, topology }),
    {
        Part { index, count, topology }
    }

    /// One past the last position of the index buffer that the part reads.
    pub open spec fn end(&self) -> int {
        self.index + 3 * self.count
    }
}

} // verus!
