use vstd::prelude::*;

use crate::force::Force;

verus! {

/// Number of rows (and of columns) on a board.
pub const NUM_ROWS: i8 = 8;

/// A square of the board. Rows count from White's side, columns from the A-file; both
/// are zero-based.
#[derive(Clone, Copy, PartialEq, Eq, Hash, Debug, Structural)]
pub struct Coord {
    pub row: i8,
    pub col: i8,
}

impl Coord {
    /// The square lies on the board.
    pub open spec fn wf(self) -> bool {
        0 <= self.row < NUM_ROWS && 0 <= self.col < NUM_ROWS
    }

    /// Position of the square in a row-major listing of the board.
    pub open spec fn spec_index(self) -> int {
        self.row * NUM_ROWS + self.col
    }

    pub fn new(row: i8, col: i8) -> (r: Option<Coord>)
        ensures
            r matches Some(c) ==> c == (Coord { row, col }) && c.wf(),
            r is None <==> !(Coord { row, col }).wf(),
    {
        if 0 <= row && row < NUM_ROWS && 0 <= col && col < NUM_ROWS {
            Some(Coord { row, col })
        } else {
            None
        }
    }

    pub fn index(self) -> (r: usize)
        requires
            self.wf(),
        ensures
            r == self.spec_index(),
            r < 64,
    {
        (self.row * NUM_ROWS + self.col) as usize
    }
}

/// A row counted from the point of view of one side: row 0 is that side's back rank.
#[derive(Clone, Copy, PartialEq, Eq, Debug, Structural)]
pub struct SubjectiveRow {
    pub idx: i8,
}

pub open spec fn spec_subjective_to_row(idx: int, force: Force) -> int {
    match force {
        Force::White => idx,
        Force::Black => NUM_ROWS - 1 - idx,
    }
}

impl SubjectiveRow {
    /// The row numbered `one_based` (1 for the back rank) from a side's point of view.
    pub fn from_one_based(one_based: i8) -> (r: Option<SubjectiveRow>)
        ensures
            r matches Some(s) ==> s.idx == one_based - 1,
            r is Some <==> 1 <= one_based <= NUM_ROWS,
    {
        if 1 <= one_based && one_based <= NUM_ROWS {
            Some(SubjectiveRow { idx: one_based - 1 })
        } else {
            None
        }
    }

    /// The board row this subjective row denotes for `force`.
    pub fn to_row(self, force: Force) -> (r: i8)
        requires
            0 <= self.idx < NUM_ROWS,
        ensures
            r == spec_subjective_to_row(self.idx as int, force),
            0 <= r < NUM_ROWS,
    {
        match force {
            Force::White => self.idx,
            Force::Black => NUM_ROWS - 1 - self.idx,
        }
    }
}

} // verus!
