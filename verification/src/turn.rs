use vstd::prelude::*;

use crate::coord::Coord;
use crate::game::BughouseEnvoy;
use crate::piece::{CastleDirection, PieceKind};

verus! {

/// Whether a turn is made in order or queued in advance, before it is the player's move.
#[derive(Clone, Copy, PartialEq, Eq, Debug, Structural)]
pub enum TurnMode {
    Normal,
    Preturn,
}

/// Why a local turn is refused before the game is asked whether it is legal.
#[derive(Clone, Copy, PartialEq, Eq, Debug, Structural)]
pub enum TurnError {
    /// The participant does not play on that board.
    NotPlayer,
    /// A historical position is shown on that board.
    WaybackIsActive,
    /// As many preturns as the rules allow are already queued on that board.
    PreturnLimitReached,
}

#[derive(Clone, Copy, PartialEq, Eq, Debug, Structural)]
pub struct TurnMove {
    pub from: Coord,
    pub to: Coord,
    pub promote_to: Option<PieceKind>,
}

#[derive(Clone, Copy, PartialEq, Eq, Debug, Structural)]
pub struct TurnDrop {
    pub piece_kind: PieceKind,
    pub to: Coord,
}

#[derive(Clone, Copy, PartialEq, Eq, Debug, Structural)]
pub enum Turn {
    Move(TurnMove),
    Drop(TurnDrop),
    Castle(CastleDirection),
}

/// A turn as the user entered it.
#[derive(Clone, Copy, PartialEq, Eq, Debug, Structural)]
pub enum TurnInput {
    DragDrop(Turn),
}

/// The square a captured piece was taken from.
#[derive(Clone, Copy, PartialEq, Eq, Debug, Structural)]
pub struct PieceCapture {
    pub from: Coord,
}

/// The effect of a turn on the squares of a board: pieces that moved (a castling moves
/// two), a piece that was dropped, a piece that was captured.
#[derive(Clone, Copy, PartialEq, Eq, Debug)]
pub struct TurnExpanded {
    pub relocation: Option<(Coord, Coord)>,
    pub relocation_extra: Option<(Coord, Coord)>,
    pub drop: Option<Coord>,
    pub capture: Option<PieceCapture>,
}

/// A turn in a game's log. Turn indices are strings that order turns like the game does.
#[derive(Clone, Debug)]
pub struct TurnRecordExpanded {
    pub envoy: BughouseEnvoy,
    pub mode: TurnMode,
    pub turn_expanded: TurnExpanded,
    pub index: String,
}

impl TurnRecordExpanded {
    pub fn index(&self) -> (r: &str)
        ensures
            r@ == self.index@,
    {
        self.index.as_str()
    }

    /// A copy of the record.
    pub fn duplicate(&self) -> (r: TurnRecordExpanded)
        ensures
            r == *self,
    {
        TurnRecordExpanded {
            envoy: self.envoy,
            mode: self.mode,
            turn_expanded: self.turn_expanded,
            index: self.index.clone(),
        }
    }
}

/// Lexicographic order of strings by code point, which is how `str` compares (UTF-8
/// byte order agrees with code point order).
pub open spec fn str_lt(a: Seq<char>, b: Seq<char>) -> bool
    decreases a.len(),
{
    if a.len() == 0 {
        b.len() > 0
    } else if b.len() == 0 {
        false
    } else if (a[0] as u32) < (b[0] as u32) {
        true
    } else if a[0] == b[0] {
        str_lt(a.drop_first(), b.drop_first())
    } else {
        false
    }
}

proof fn lemma_str_lt_step(a: Seq<char>, b: Seq<char>, i: int)
    requires
        0 <= i < a.len(),
        i < b.len(),
        a[i] == b[i],
    ensures
        str_lt(a.skip(i), b.skip(i)) == str_lt(a.skip(i + 1), b.skip(i + 1)),
{
    assert(a.skip(i).drop_first() =~= a.skip(i + 1));
    assert(b.skip(i).drop_first() =~= b.skip(i + 1));
}

/// `a >= b` for strings.
pub fn str_ge(a: &str, b: &str) -> (r: bool)
    ensures
        r == !str_lt(a@, b@),
{
    let a_len = a.unicode_len();
    let b_len = b.unicode_len();
    let mut i: usize = 0;
    assert(a@.skip(0) =~= a@);
    assert(b@.skip(0) =~= b@);
    while i < a_len && i < b_len
        invariant
            a_len == a@.len(),
            b_len == b@.len(),
            i <= a_len,
            i <= b_len,
            str_lt(a@, b@) == str_lt(a@.skip(i as int), b@.skip(i as int)),
        decreases a_len - i,
    {
        let ca = a.get_char(i);
        let cb = b.get_char(i);
        if (ca as u32) < (cb as u32) {
            return false;
        }
        if ca != cb {
            return true;
        }
        proof {
            lemma_str_lt_step(a@, b@, i as int);
        }
        i = i + 1;
    }
    i == b_len
}

} // verus!
