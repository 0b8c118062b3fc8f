use vstd::prelude::*;

use crate::coord::Coord;
use crate::force::Force;
use crate::piece::{PieceKind, PieceOnBoard};

verus! {

/// The pieces of one side held in reserve, ready to be dropped: a count per kind.
#[derive(Clone, Copy, PartialEq, Eq, Debug, Structural)]
pub struct Reserve {
    pub pawn: u8,
    pub knight: u8,
    pub bishop: u8,
    pub rook: u8,
    pub queen: u8,
    pub king: u8,
}

impl Reserve {
    pub open spec fn spec_count(self, kind: PieceKind) -> u8 {
        match kind {
            PieceKind::Pawn => self.pawn,
            PieceKind::Knight => self.knight,
            PieceKind::Bishop => self.bishop,
            PieceKind::Rook => self.rook,
            PieceKind::Queen => self.queen,
            PieceKind::King => self.king,
        }
    }

    pub fn empty() -> (r: Reserve)
        ensures
            forall|k: PieceKind| #[trigger] r.spec_count(k) == 0,
    {
        Reserve { pawn: 0, knight: 0, bishop: 0, rook: 0, queen: 0, king: 0 }
    }

    pub fn count(&self, kind: PieceKind) -> (r: u8)
        ensures
            r == self.spec_count(kind),
    {
        match kind {
            PieceKind::Pawn => self.pawn,
            PieceKind::Knight => self.knight,
            PieceKind::Bishop => self.bishop,
            PieceKind::Rook => self.rook,
            PieceKind::Queen => self.queen,
            PieceKind::King => self.king,
        }
    }

    pub fn set_count(&mut self, kind: PieceKind, n: u8)
        ensures
            final(self).spec_count(kind) == n,
            forall|k: PieceKind| k != kind ==> #[trigger] final(self).spec_count(k) == old(
                self,
            ).spec_count(k),
    {
        match kind {
            PieceKind::Pawn => self.pawn = n,
            PieceKind::Knight => self.knight = n,
            PieceKind::Bishop => self.bishop = n,
            PieceKind::Rook => self.rook = n,
            PieceKind::Queen => self.queen = n,
            PieceKind::King => self.king = n,
        }
    }
}

/// The pieces standing on a board and the reserves of both sides.
#[derive(Clone, Debug)]
pub struct Board {
    grid: Vec<Option<PieceOnBoard>>,
    white_reserve: Reserve,
    black_reserve: Reserve,
}

impl Board {
    /// The grid has one entry per square.
    pub closed spec fn wf(self) -> bool {
        self.grid.len() == 64
    }

    /// The piece on a square.
    pub closed spec fn spec_piece(self, coord: Coord) -> Option<PieceOnBoard> {
        self.grid@[coord.spec_index()]
    }

    /// The reserve of a side.
    pub closed spec fn spec_reserve(self, force: Force) -> Reserve {
        match force {
            Force::White => self.white_reserve,
            Force::Black => self.black_reserve,
        }
    }

    /// A board with no pieces and empty reserves.
    pub fn empty() -> (r: Board)
        ensures
            r.wf(),
            forall|c: Coord| c.wf() ==> #[trigger] r.spec_piece(c) is None,
            forall|f: Force, k: PieceKind| #[trigger] r.spec_reserve(f).spec_count(k) == 0,
    {
        let mut grid: Vec<Option<PieceOnBoard>> = Vec::new();
        let mut i: usize = 0;
        while i < 64
            invariant
                i <= 64,
                grid.len() == i,
                forall|j: int| 0 <= j < i ==> grid@[j] is None,
            decreases 64 - i,
        {
            grid.push(None);
            i = i + 1;
        }
        Board { grid, white_reserve: Reserve::empty(), black_reserve: Reserve::empty() }
    }

    pub fn piece_at(&self, coord: Coord) -> (r: Option<PieceOnBoard>)
        requires
            self.wf(),
            coord.wf(),
        ensures
            r == self.spec_piece(coord),
    {
        self.grid[coord.index()]
    }

    pub fn set_piece(&mut self, coord: Coord, piece: Option<PieceOnBoard>)
        requires
            old(self).wf(),
            coord.wf(),
        ensures
            final(self).wf(),
            final(self).spec_piece(coord) == piece,
            forall|c: Coord|
                c.wf() && c != coord ==> #[trigger] final(self).spec_piece(c) == old(
                    self,
                ).spec_piece(c),
            forall|f: Force| #[trigger] final(self).spec_reserve(f) == old(self).spec_reserve(f),
    {
        let idx = coord.index();
        self.grid.set(idx, piece);
        proof {
            assert forall|c: Coord| c.wf() && c != coord implies c.spec_index()
                != coord.spec_index() by {
                if c.spec_index() == coord.spec_index() {
                    assert(c.row == coord.row) by (nonlinear_arith)
                        requires
                            0 <= c.col < 8,
                            0 <= coord.col < 8,
                            c.row * 8 + c.col == coord.row * 8 + coord.col,
                    ;
                }
            }
        }
    }

    pub fn reserve(&self, force: Force) -> (r: Reserve)
        ensures
            r == self.spec_reserve(force),
    {
        match force {
            Force::White => self.white_reserve,
            Force::Black => self.black_reserve,
        }
    }

    pub fn set_reserve(&mut self, force: Force, reserve: Reserve)
        ensures
            final(self).wf() == old(self).wf(),
            final(self).spec_reserve(force) == reserve,
            final(self).spec_reserve(force.spec_opponent()) == old(self).spec_reserve(
                force.spec_opponent(),
            ),
            forall|c: Coord| c.wf() ==> #[trigger] final(self).spec_piece(c) == old(
                self,
            ).spec_piece(c),
    {
        match force {
            Force::White => self.white_reserve = reserve,
            Force::Black => self.black_reserve = reserve,
        }
    }

    /// Pieces a side may pick up: its own pieces.
    pub fn can_potentially_move_piece(&self, my_force: Force, piece_force: Force) -> (r: bool)
        ensures
            r == (my_force == piece_force),
    {
        my_force == piece_force
    }
}

} // verus!
