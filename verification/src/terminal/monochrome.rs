use vstd::prelude::*;

verus! {

/// The two states of a display pixel. A blank display is all `White`; drawing
/// turns pixels `Black`.
#[derive(Clone, Copy, PartialEq, Eq, Structural, Debug)]
pub enum Monochrome {
    White,
    Black,
}

impl Monochrome {
    /// The other colour.
    pub open spec fn flipped(self) -> Monochrome {
        match self {
            Monochrome::White => Monochrome::Black,
            Monochrome::Black => Monochrome::White,
        }
    }

    /// Returns the other colour.
    pub fn toggled(self) -> (r: Monochrome)
        ensures
            r == self.flipped(),
    {
        match self {
            Monochrome::White => Monochrome::Black,
            Monochrome::Black => Monochrome::White,
        }
    }
}

} // verus!
