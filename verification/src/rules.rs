// The rules a game is played by.

use vstd::prelude::*;

use crate::coord::SubjectiveRow;

verus! {

/// How the pieces are set up on the back ranks.
#[derive(Clone, Copy, PartialEq, Eq, Debug, Structural)]
pub enum StartingPosition {
    Classic,
    FischerRandom,
}

/// The time each player has for the whole game.
#[derive(Clone, Copy, PartialEq, Eq, Debug, Structural)]
pub struct TimeControl {
    pub starting_time_ms: u64,
}

#[derive(Clone, Copy, PartialEq, Eq, Debug, Structural)]
pub struct ChessRules {
    pub starting_position: StartingPosition,
    pub time_control: TimeControl,
}

/// How threatening a dropped piece may be.
#[derive(Clone, Copy, PartialEq, Eq, Debug, Structural)]
pub enum DropAggression {
    NoCheck,
    NoChessMate,
    NoBughouseMate,
    MateAllowed,
}

/// The rules that bughouse adds to chess: on which rows pawns may be dropped, and how
/// aggressive a drop may be.
#[derive(Clone, Copy, PartialEq, Eq, Debug, Structural)]
pub struct BughouseRules {
    pub min_pawn_drop_row: SubjectiveRow,
    pub max_pawn_drop_row: SubjectiveRow,
    pub drop_aggression: DropAggression,
}

} // verus!
