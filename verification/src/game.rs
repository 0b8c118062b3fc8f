use vstd::prelude::*;

use crate::force::Force;

verus! {

/// The two boards of a bughouse game.
#[derive(Clone, Copy, PartialEq, Eq, Hash, Debug, Structural)]
pub enum BughouseBoard {
    A,
    B,
}

/// The two teams. Each team plays White on one board and Black on the other.
#[derive(Clone, Copy, PartialEq, Eq, Hash, Debug, Structural)]
pub enum Team {
    Red,
    Blue,
}

/// Why a team won.
#[derive(Clone, Copy, PartialEq, Eq, Debug, Structural)]
pub enum VictoryReason {
    Checkmate,
    Flag,
    Resignation,
}

/// Why a game ended in a draw.
#[derive(Clone, Copy, PartialEq, Eq, Debug, Structural)]
pub enum DrawReason {
    SimultaneousFlag,
    ThreefoldRepetition,
}

/// The status of a bughouse game: still being played, or over.
#[derive(Clone, Copy, PartialEq, Eq, Debug, Structural)]
pub enum BughouseGameStatus {
    Active,
    Victory(Team, VictoryReason),
    Draw(DrawReason),
}

impl BughouseBoard {
    pub fn other(self) -> (r: BughouseBoard)
        ensures
            r != self,
    {
        match self {
            BughouseBoard::A => BughouseBoard::B,
            BughouseBoard::B => BughouseBoard::A,
        }
    }
}

impl Team {
    pub fn opponent(self) -> (r: Team)
        ensures
            r != self,
    {
        match self {
            Team::Red => Team::Blue,
            Team::Blue => Team::Red,
        }
    }
}

/// The side a team plays on a board: Red is White on board A and Black on board B.
pub open spec fn spec_bughouse_force(team: Team, board_idx: BughouseBoard) -> Force {
    match (team, board_idx) {
        (Team::Red, BughouseBoard::A) => Force::White,
        (Team::Red, BughouseBoard::B) => Force::Black,
        (Team::Blue, BughouseBoard::A) => Force::Black,
        (Team::Blue, BughouseBoard::B) => Force::White,
    }
}

/// The team that plays `force` on a board.
pub open spec fn spec_bughouse_team(board_idx: BughouseBoard, force: Force) -> Team {
    match (board_idx, force) {
        (BughouseBoard::A, Force::White) => Team::Red,
        (BughouseBoard::A, Force::Black) => Team::Blue,
        (BughouseBoard::B, Force::White) => Team::Blue,
        (BughouseBoard::B, Force::Black) => Team::Red,
    }
}

pub fn get_bughouse_force(team: Team, board_idx: BughouseBoard) -> (r: Force)
    ensures
        r == spec_bughouse_force(team, board_idx),
{
    match (team, board_idx) {
        (Team::Red, BughouseBoard::A) => Force::White,
        (Team::Red, BughouseBoard::B) => Force::Black,
        (Team::Blue, BughouseBoard::A) => Force::Black,
        (Team::Blue, BughouseBoard::B) => Force::White,
    }
}

/// One side of one board: the unit that makes turns.
#[derive(Clone, Copy, PartialEq, Eq, Hash, Debug, Structural)]
pub struct BughouseEnvoy {
    pub board_idx: BughouseBoard,
    pub force: Force,
}

impl BughouseEnvoy {
    pub fn team(self) -> (r: Team)
        ensures
            r == spec_bughouse_team(self.board_idx, self.force),
    {
        match (self.board_idx, self.force) {
            (BughouseBoard::A, Force::White) => Team::Red,
            (BughouseBoard::A, Force::Black) => Team::Blue,
            (BughouseBoard::B, Force::White) => Team::Blue,
            (BughouseBoard::B, Force::Black) => Team::Red,
        }
    }
}

/// A player plays either one side of one board or, alone, both boards of a team.
#[derive(Clone, Copy, PartialEq, Eq, Hash, Debug, Structural)]
pub enum BughousePlayer {
    SinglePlayer(BughouseEnvoy),
    DoublePlayer(Team),
}

#[derive(Clone, Copy, PartialEq, Eq, Hash, Debug, Structural)]
pub enum BughouseParticipant {
    Player(BughousePlayer),
    Observer,
}

pub open spec fn spec_player_envoy_for(
    player: BughousePlayer,
    board_idx: BughouseBoard,
) -> Option<BughouseEnvoy> {
    match player {
        BughousePlayer::SinglePlayer(envoy) => if envoy.board_idx == board_idx {
            Some(envoy)
        } else {
            None
        },
        BughousePlayer::DoublePlayer(team) => Some(
            BughouseEnvoy { board_idx, force: spec_bughouse_force(team, board_idx) },
        ),
    }
}

pub open spec fn spec_player_plays_for(player: BughousePlayer, envoy: BughouseEnvoy) -> bool {
    match player {
        BughousePlayer::SinglePlayer(e) => e == envoy,
        BughousePlayer::DoublePlayer(team) => spec_bughouse_team(envoy.board_idx, envoy.force)
            == team,
    }
}

pub open spec fn spec_envoy_for(
    participant: BughouseParticipant,
    board_idx: BughouseBoard,
) -> Option<BughouseEnvoy> {
    match participant {
        BughouseParticipant::Player(p) => spec_player_envoy_for(p, board_idx),
        BughouseParticipant::Observer => None,
    }
}

pub open spec fn spec_plays_for(participant: BughouseParticipant, envoy: BughouseEnvoy) -> bool {
    match participant {
        BughouseParticipant::Player(p) => spec_player_plays_for(p, envoy),
        BughouseParticipant::Observer => false,
    }
}

pub open spec fn spec_player_team(player: BughousePlayer) -> Team {
    match player {
        BughousePlayer::SinglePlayer(e) => spec_bughouse_team(e.board_idx, e.force),
        BughousePlayer::DoublePlayer(team) => team,
    }
}

impl BughousePlayer {
    pub fn team(self) -> (r: Team)
        ensures
            r == spec_player_team(self),
    {
        match self {
            BughousePlayer::SinglePlayer(e) => e.team(),
            BughousePlayer::DoublePlayer(team) => team,
        }
    }

    /// The side this player plays on the given board, if any.
    pub fn envoy_for(self, board_idx: BughouseBoard) -> (r: Option<BughouseEnvoy>)
        ensures
            r == spec_player_envoy_for(self, board_idx),
    {
        match self {
            BughousePlayer::SinglePlayer(envoy) => if envoy.board_idx == board_idx {
                Some(envoy)
            } else {
                None
            },
            BughousePlayer::DoublePlayer(team) => Some(
                BughouseEnvoy { board_idx, force: get_bughouse_force(team, board_idx) },
            ),
        }
    }

    pub fn plays_for(self, envoy: BughouseEnvoy) -> (r: bool)
        ensures
            r == spec_player_plays_for(self, envoy),
    {
        match self {
            BughousePlayer::SinglePlayer(e) => e == envoy,
            BughousePlayer::DoublePlayer(team) => envoy.team() == team,
        }
    }
}

impl BughouseParticipant {
    pub fn envoy_for(self, board_idx: BughouseBoard) -> (r: Option<BughouseEnvoy>)
        ensures
            r == spec_envoy_for(self, board_idx),
    {
        match self {
            BughouseParticipant::Player(p) => p.envoy_for(board_idx),
            BughouseParticipant::Observer => None,
        }
    }

    pub fn plays_for(self, envoy: BughouseEnvoy) -> (r: bool)
        ensures
            r == spec_plays_for(self, envoy),
    {
        match self {
            BughouseParticipant::Player(p) => p.plays_for(envoy),
            BughouseParticipant::Observer => false,
        }
    }
}

/// One value for each board.
#[derive(Clone, Debug)]
pub struct PerBoard<T> {
    pub a: T,
    pub b: T,
}

impl<T> PerBoard<T> {
    pub open spec fn spec_get(&self, board_idx: BughouseBoard) -> T {
        match board_idx {
            BughouseBoard::A => self.a,
            BughouseBoard::B => self.b,
        }
    }

    pub fn get(&self, board_idx: BughouseBoard) -> (r: &T)
        ensures
            *r == self.spec_get(board_idx),
    {
        match board_idx {
            BughouseBoard::A => &self.a,
            BughouseBoard::B => &self.b,
        }
    }

    pub fn set(&mut self, board_idx: BughouseBoard, value: T)
        ensures
            final(self).spec_get(board_idx) == value,
            final(self).spec_get(board_idx.spec_other()) == old(self).spec_get(
                board_idx.spec_other(),
            ),
    {
        match board_idx {
            BughouseBoard::A => self.a = value,
            BughouseBoard::B => self.b = value,
        }
    }
}

impl BughouseBoard {
    pub open spec fn spec_other(self) -> BughouseBoard {
        match self {
            BughouseBoard::A => BughouseBoard::B,
            BughouseBoard::B => BughouseBoard::A,
        }
    }
}

/// Whenever a participant has a side on a board, that side is on that board and plays for
/// the participant.
pub proof fn lemma_envoy_for_plays_for(participant: BughouseParticipant, board_idx: BughouseBoard)
    ensures
        spec_envoy_for(participant, board_idx) matches Some(e) ==> e.board_idx == board_idx
            && spec_plays_for(participant, e),
{
}

/// The side a team plays on a board belongs to that team, and the team playing a side
/// plays that side.
pub proof fn lemma_force_team_inverse(team: Team, board_idx: BughouseBoard, force: Force)
    ensures
        spec_bughouse_team(board_idx, spec_bughouse_force(team, board_idx)) == team,
        spec_bughouse_force(spec_bughouse_team(board_idx, force), board_idx) == force,
        spec_bughouse_force(team, BughouseBoard::A) != spec_bughouse_force(
            team,
            BughouseBoard::B,
        ),
{
}

} // verus!
