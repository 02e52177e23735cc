use vstd::prelude::*;

verus! {

/// Where the anchor point sits relative to the laid-out text block.
#[derive(Clone, Copy, Debug, PartialEq, Eq, Structural)]
pub enum Align {
    /// Right edge on the anchor.
    R,
    /// Left edge on the anchor.
    L,
    /// Horizontal middle on the anchor.
    M,
    /// Horizontal and vertical middle on the anchor.
    C,
    /// Right edge and vertical middle on the anchor.
    CR,
    /// Left edge and vertical middle on the anchor.
    CL,
}

/// How many half widths are subtracted from the anchor's x, and how many half
/// heights are added to its y, for a block of the given alignment.
pub open spec fn half_shifts(a: Align) -> (u8, u8) {
    match a {
        Align::L => (0, 0),
        Align::R => (2, 0),
        Align::M => (1, 0),
        Align::C => (1, 1),
        Align::CL => (0, 1),
        Align::CR => (2, 1),
    }
}

impl Align {
    /// The pair `(kx, ky)`: the block is translated by `(x - kx·w/2, y + ky·h/2)`.
    pub fn half_shifts(&self) -> (r: (u8, u8))
        ensures
            r == half_shifts(*self),
            r.0 <= 2 && r.1 <= 1,
    {
        match self {
            Align::L => (0, 0),
            Align::R => (2, 0),
            Align::M => (1, 0),
            Align::C => (1, 1),
            Align::CL => (0, 1),
            Align::CR => (2, 1),
        }
    }
}

} // verus!
