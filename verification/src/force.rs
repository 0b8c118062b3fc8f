use vstd::prelude::*;

verus! {

/// The side a chess piece or a player belongs to.
#[derive(Clone, Copy, PartialEq, Eq, Hash, Debug, Structural)]
pub enum Force {
    White,
    Black,
}

impl Force {
    pub open spec fn spec_opponent(self) -> Force {
        match self {
            Force::White => Force::Black,
            Force::Black => Force::White,
        }
    }

    /// The other side.
    pub fn opponent(self) -> (r: Force)
        ensures
            r == self.spec_opponent(),
            r != self,
    {
        match self {
            Force::White => Force::Black,
            Force::Black => Force::White,
        }
    }
}

} // verus!
