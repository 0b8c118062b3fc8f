// The decisions of a bughouse server that gathers four players in a lobby and starts a
// game. The caller owns the network connections and the game: it feeds events in and
// performs the returned actions in order.

use vstd::prelude::*;

use rand::seq::SliceRandom;

use crate::coord::SubjectiveRow;
use crate::game::{BughouseBoard, BughouseGameStatus, Team};
use crate::rules::{
    BughouseRules, ChessRules, DropAggression, StartingPosition, TimeControl,
};

verus! {

pub const TOTAL_PLAYERS: usize = 4;

pub const TOTAL_PLAYERS_PER_TEAM: usize = 2;

#[derive(Clone, Debug)]
pub struct Player {
    pub name: String,
    pub team: Team,
}

impl Player {
    /// A copy of the player.
    pub fn duplicate(&self) -> (r: Player)
        ensures
            r == *self,
    {
        Player { name: self.name.clone(), team: self.team }
    }
}

/// Messages sent by a client.
#[derive(Clone, Debug)]
pub enum ClientEvent {
    Join { player_name: String, team: Team },
    MakeTurn { turn_algebraic: String },
    Leave,
}

/// What the server reacts to. `ClientConnected` is a new connection, which gets the next
/// player id; `ClientEvent` carries the id of the connection it came from.
#[derive(Clone, Debug)]
pub enum IncomingEvent {
    ClientConnected,
    ClientEvent(usize, ClientEvent),
    Tick,
}

/// Messages the server sends to clients.
#[derive(Clone, Debug)]
pub enum ServerEvent {
    Error { message: String },
    LobbyUpdated { players: Vec<Player> },
    /// The game is over: `game_status` is its final status, reached `time_ms`
    /// milliseconds after its start.
    GameOver { time_ms: u64, game_status: BughouseGameStatus },
}

/// What the caller must do, in order.
#[derive(Clone, Debug)]
pub enum ServerAction {
    /// Serve the new connection as player `player_id`.
    AcceptClient { player_id: usize },
    /// Send `message` as an error to the new connection, then drop it.
    RejectClient { message: String },
    SendError { player_id: usize, message: String },
    Broadcast(ServerEvent),
    /// Create a game by these rules with these players on these boards, and broadcast
    /// its start: the rules, the starting position of board A and the players.
    StartGame {
        chess_rules: ChessRules,
        bughouse_rules: BughouseRules,
        players: Vec<(Player, BughouseBoard)>,
    },
    /// Apply the turn to the game `game_time_ms` milliseconds after its start, tell the
    /// player if it is impossible, and broadcast the turn and the game status.
    ApplyTurn { player_id: usize, player_name: String, turn_algebraic: String, game_time_ms: u64 },
}

#[derive(Clone, Debug)]
pub enum ContestState {
    Lobby,
    /// A game is in progress; it starts its clock (`game_start`, in milliseconds of the
    /// caller's clock) with the first turn.
    Game { players: Vec<(Player, BughouseBoard)>, game_start: Option<u64> },
}

pub struct ServerState {
    // One entry per connection: the player once they have joined.
    players: Vec<Option<Player>>,
    contest_state: ContestState,
    // The rules of the games this server starts.
    chess_rules: ChessRules,
    bughouse_rules: BughouseRules,
}

// ---------------------------------------------------------------------------------------
// Teams and boards

/// The players of a team, in joining-slot order.
pub open spec fn spec_team_players(players: Seq<Option<Player>>, team: Team) -> Seq<Player>
    decreases players.len(),
{
    if players.len() == 0 {
        Seq::empty()
    } else {
        let prev = spec_team_players(players.drop_last(), team);
        match players.last() {
            Some(p) => if p.team == team {
                prev.push(p)
            } else {
                prev
            },
            None => prev,
        }
    }
}

/// All players that have joined, in slot order.
pub open spec fn spec_joined_players(players: Seq<Option<Player>>) -> Seq<Player>
    decreases players.len(),
{
    if players.len() == 0 {
        Seq::empty()
    } else {
        let prev = spec_joined_players(players.drop_last());
        match players.last() {
            Some(p) => prev.push(p),
            None => prev,
        }
    }
}

pub fn get_team_players(players: &Vec<Option<Player>>, team: Team) -> (r: Vec<Player>)
    ensures
        r@ == spec_team_players(players@, team),
{
    let mut result: Vec<Player> = Vec::new();
    let mut i: usize = 0;
    while i < players.len()
        invariant
            i <= players.len(),
            result@ == spec_team_players(players@.take(i as int), team),
        decreases players.len() - i,
    {
        assert(players@.take(i + 1).drop_last() =~= players@.take(i as int));
        if let Some(p) = &players[i] {
            if p.team == team {
                result.push(p.duplicate());
            }
        }
        i = i + 1;
    }
    assert(players@.take(players.len() as int) =~= players@);
    result
}

fn get_joined_players(players: &Vec<Option<Player>>) -> (r: Vec<Player>)
    ensures
        r@ == spec_joined_players(players@),
{
    let mut result: Vec<Player> = Vec::new();
    let mut i: usize = 0;
    while i < players.len()
        invariant
            i <= players.len(),
            result@ == spec_joined_players(players@.take(i as int)),
        decreases players.len() - i,
    {
        assert(players@.take(i + 1).drop_last() =~= players@.take(i as int));
        if let Some(p) = &players[i] {
            result.push(p.duplicate());
        }
        i = i + 1;
    }
    assert(players@.take(players.len() as int) =~= players@);
    result
}

/// `rand::seq::SliceRandom::shuffle` with the thread-local generator: the items in a
/// random order. Which order is left open.
#[verifier::external_body]
fn shuffle<T>(items: &mut Vec<T>)
    ensures
        final(items)@.to_multiset() == old(items)@.to_multiset(),
        final(items)@.len() == old(items)@.len(),
{
    items.shuffle(&mut rand::thread_rng());
}

/// `assignment` seats the two players of each team: Red first, then Blue; on each team
/// one player on board A, then the other on board B, in either order.
pub open spec fn spec_valid_assignment(
    assignment: Seq<(Player, BughouseBoard)>,
    players: Seq<Option<Player>>,
) -> bool {
    &&& assignment.len() == 4
    &&& assignment[0].1 == BughouseBoard::A && assignment[1].1 == BughouseBoard::B
    &&& assignment[2].1 == BughouseBoard::A && assignment[3].1 == BughouseBoard::B
    &&& seq![assignment[0].0, assignment[1].0].to_multiset() == spec_team_players(
        players,
        Team::Red,
    ).to_multiset()
    &&& seq![assignment[2].0, assignment[3].0].to_multiset() == spec_team_players(
        players,
        Team::Blue,
    ).to_multiset()
}

fn make_team(players: &Vec<Option<Player>>, team: Team) -> (r: (Player, Player))
    requires
        spec_team_players(players@, team).len() == TOTAL_PLAYERS_PER_TEAM,
    ensures
        seq![r.0, r.1].to_multiset() == spec_team_players(players@, team).to_multiset(),
{
    let mut team_players = get_team_players(players, team);
    shuffle(&mut team_players);
    let ghost shuffled = team_players@;
    let b = team_players.pop().unwrap();
    let a = team_players.pop().unwrap();
    assert(seq![a, b] =~= shuffled);
    (a, b)
}

/// Seats the players: each team's two players go to boards A and B in random order.
pub fn assign_boards(players: &Vec<Option<Player>>) -> (r: Vec<(Player, BughouseBoard)>)
    requires
        spec_team_players(players@, Team::Red).len() == TOTAL_PLAYERS_PER_TEAM,
        spec_team_players(players@, Team::Blue).len() == TOTAL_PLAYERS_PER_TEAM,
    ensures
        spec_valid_assignment(r@, players@),
{
    let (red_a, red_b) = make_team(players, Team::Red);
    let (blue_a, blue_b) = make_team(players, Team::Blue);
    let mut r: Vec<(Player, BughouseBoard)> = Vec::new();
    r.push((red_a, BughouseBoard::A));
    r.push((red_b, BughouseBoard::B));
    r.push((blue_a, BughouseBoard::A));
    r.push((blue_b, BughouseBoard::B));
    r
}


// ---------------------------------------------------------------------------------------
// Lobby and game state

pub open spec fn all_joined(players: Seq<Option<Player>>) -> bool {
    forall|i: int| 0 <= i < players.len() ==> (#[trigger] players[i]) is Some
}

pub open spec fn team_name(team: Team) -> Seq<char> {
    match team {
        Team::Red => "Red"@,
        Team::Blue => "Blue"@,
    }
}

/// The players after an event: a connection in the lobby adds an empty slot, a successful
/// join fills the player's slot.
pub open spec fn spec_players_after(
    players: Seq<Option<Player>>,
    contest: ContestState,
    event: IncomingEvent,
) -> Seq<Option<Player>> {
    match (event, contest) {
        (IncomingEvent::ClientConnected, ContestState::Lobby) => players.push(None),
        (
            IncomingEvent::ClientEvent(id, ClientEvent::Join { player_name, team }),
            ContestState::Lobby,
        ) => if players[id as int] is None && spec_team_players(players, team).len()
            < TOTAL_PLAYERS_PER_TEAM {
            players.update(id as int, Some(Player { name: player_name, team }))
        } else {
            players
        },
        _ => players,
    }
}

/// The game clock starts with the first turn.
pub open spec fn spec_contest_after(contest: ContestState, event: IncomingEvent, now: u64) -> ContestState {
    match (event, contest) {
        (
            IncomingEvent::ClientEvent(_, ClientEvent::MakeTurn { .. }),
            ContestState::Game { players, game_start: None },
        ) => ContestState::Game { players, game_start: Some(now) },
        _ => contest,
    }
}

/// Milliseconds of game time at `now`, for a game whose clock started at `start`.
pub open spec fn spec_game_time(start: u64, now: u64) -> u64 {
    if now >= start {
        (now - start) as u64
    } else {
        0
    }
}

/// The game time at which flags are tested before an event: only while a game is in
/// progress and its clock has started.
pub open spec fn spec_flag_test_time(contest: ContestState, now: u64) -> Option<u64> {
    match contest {
        ContestState::Game { game_start: Some(start), .. } => Some(spec_game_time(start, now)),
        _ => None,
    }
}

/// Whether the flag test before an event finds the game over: the game's clock is running
/// and the status of the game after testing the flags is no longer active.
pub open spec fn spec_game_over(contest: ContestState, now: u64, game_status: BughouseGameStatus) -> bool {
    spec_flag_test_time(contest, now) is Some && !(game_status is Active)
}

/// The chess rules of the games a server starts: Fischer random, five minutes each.
pub open spec fn spec_server_chess_rules() -> ChessRules {
    ChessRules {
        starting_position: StartingPosition::FischerRandom,
        time_control: TimeControl { starting_time_ms: 300_000 },
    }
}

/// The bughouse rules of the games a server starts: pawns are dropped on rows 2 to 6, and a
/// drop may not checkmate.
pub open spec fn spec_server_bughouse_rules() -> BughouseRules {
    BughouseRules {
        min_pawn_drop_row: SubjectiveRow { idx: 1 },
        max_pawn_drop_row: SubjectiveRow { idx: 5 },
        drop_aggression: DropAggression::NoChessMate,
    }
}

fn game_time(start: u64, now: u64) -> (r: u64)
    ensures
        r == spec_game_time(start, now),
{
    if now >= start {
        now - start
    } else {
        0
    }
}

pub open spec fn is_error_to(action: ServerAction, player_id: usize, message: Seq<char>) -> bool {
    action matches ServerAction::SendError { player_id: id, message: m } && id == player_id && m@
        == message
}

/// The actions answering an event, before a full lobby starts a game.
pub open spec fn spec_event_actions(
    players: Seq<Option<Player>>,
    contest: ContestState,
    event: IncomingEvent,
    now: u64,
    actions: Seq<ServerAction>,
) -> bool {
    match event {
        IncomingEvent::ClientConnected => actions.len() == 1 && match contest {
            ContestState::Lobby => actions[0] == ServerAction::AcceptClient {
                player_id: players.len() as usize,
            },
            ContestState::Game { .. } => actions[0] matches ServerAction::RejectClient { message }
                && message@ == "Cannot connect: game has already started"@,
        },
        IncomingEvent::ClientEvent(id, ClientEvent::Join { player_name, team }) => actions.len()
            == 1 && match contest {
            ContestState::Lobby => if players[id as int] is Some {
                is_error_to(actions[0], id, "Cannot join: already joined"@)
            } else if spec_team_players(players, team).len() >= TOTAL_PLAYERS_PER_TEAM {
                is_error_to(
                    actions[0],
                    id,
                    "Cannot join: team "@ + team_name(team) + " is full"@,
                )
            } else {
                actions[0] matches ServerAction::Broadcast(ServerEvent::LobbyUpdated { players: joined })
                    && joined@ == spec_joined_players(spec_players_after(players, contest, event))
            },
            ContestState::Game { .. } => is_error_to(
                actions[0],
                id,
                "Cannot join: game has already started"@,
            ),
        },
        IncomingEvent::ClientEvent(id, ClientEvent::MakeTurn { turn_algebraic }) => {
            &&& actions.len() == 1
            &&& match spec_contest_after(contest, event, now) {
                ContestState::Game { game_start: Some(start), .. } => {
                    &&& actions[0] matches ServerAction::ApplyTurn {
                        player_id,
                        player_name,
                        turn_algebraic: t,
                        game_time_ms,
                    }
                    &&& player_id == id
                    &&& players[id as int] matches Some(p)
                    &&& player_name@ == p.name@
                    &&& t@ == turn_algebraic@
                    &&& game_time_ms == spec_game_time(start, now)
                },
                _ => is_error_to(actions[0], id, "Cannot make turn: no game in progress"@),
            }
        },
        IncomingEvent::ClientEvent(_, ClientEvent::Leave) => {
            &&& actions.len() == 1
            &&& actions[0] matches ServerAction::Broadcast(ServerEvent::Error { message })
            &&& message@ == "Oh no! Somebody left the party"@
        },
        IncomingEvent::Tick => actions.len() == 0,
    }
}

impl ServerState {
    pub closed spec fn spec_players(&self) -> Seq<Option<Player>> {
        self.players@
    }

    pub closed spec fn spec_contest(&self) -> ContestState {
        self.contest_state
    }

    pub closed spec fn spec_chess_rules(&self) -> ChessRules {
        self.chess_rules
    }

    pub closed spec fn spec_bughouse_rules(&self) -> BughouseRules {
        self.bughouse_rules
    }

    /// At most four connections; no team over two players; a game is played by the four
    /// players who joined, each team seated on both boards.
    pub open spec fn wf(&self) -> bool {
        &&& self.spec_players().len() <= TOTAL_PLAYERS
        &&& spec_team_players(self.spec_players(), Team::Red).len() <= TOTAL_PLAYERS_PER_TEAM
        &&& spec_team_players(self.spec_players(), Team::Blue).len() <= TOTAL_PLAYERS_PER_TEAM
        &&& self.spec_contest() matches ContestState::Game { players, .. } ==> {
            &&& self.spec_players().len() == TOTAL_PLAYERS
            &&& all_joined(self.spec_players())
            &&& spec_valid_assignment(players@, self.spec_players())
        }
    }

    pub fn new() -> (r: ServerState)
        ensures
            r.wf(),
            r.spec_players().len() == 0,
            r.spec_contest() is Lobby,
            r.spec_chess_rules() == spec_server_chess_rules(),
            r.spec_bughouse_rules() == spec_server_bughouse_rules(),
    {
        let min_pawn_drop_row = SubjectiveRow::from_one_based(2).unwrap();
        let max_pawn_drop_row = SubjectiveRow::from_one_based(6).unwrap();
        ServerState {
            players: Vec::new(),
            contest_state: ContestState::Lobby,
            chess_rules: ChessRules {
                starting_position: StartingPosition::FischerRandom,
                time_control: TimeControl { starting_time_ms: 300_000 },
            },
            bughouse_rules: BughouseRules {
                min_pawn_drop_row,
                max_pawn_drop_row,
                drop_aggression: DropAggression::NoChessMate,
            },
        }
    }

    pub fn chess_rules(&self) -> (r: ChessRules)
        ensures
            r == self.spec_chess_rules(),
    {
        self.chess_rules
    }

    pub fn bughouse_rules(&self) -> (r: BughouseRules)
        ensures
            r == self.spec_bughouse_rules(),
    {
        self.bughouse_rules
    }

    /// The game time at which the caller tests its game's flags before handing over the
    /// event that comes at `now`; `None` when no game clock is running.
    pub fn flag_test_time(&self, now: u64) -> (r: Option<u64>)
        ensures
            r == spec_flag_test_time(self.spec_contest(), now),
    {
        match &self.contest_state {
            ContestState::Game { game_start: Some(start), .. } => Some(game_time(*start, now)),
            _ => None,
        }
    }

    /// Reacts to one event at time `now` (milliseconds of the caller's clock).
    /// `game_status` is the status of the caller's game once its flags are tested at
    /// `flag_test_time(now)`; it is not read when that is `None`. A game found over is
    /// announced and the event ignored. When the fourth player joins, a game is started
    /// by the server's rules.
    pub fn apply_event(
        &mut self,
        event: IncomingEvent,
        now: u64,
        game_status: BughouseGameStatus,
    ) -> (actions: Vec<ServerAction>)
        requires
            old(self).wf(),
            event is ClientConnected && old(self).spec_contest() is Lobby ==> old(
                self,
            ).spec_players().len() < TOTAL_PLAYERS,
            event matches IncomingEvent::ClientEvent(id, _) ==> id < old(self).spec_players().len(),
        ensures
            final(self).wf(),
            final(self).spec_chess_rules() == old(self).spec_chess_rules(),
            final(self).spec_bughouse_rules() == old(self).spec_bughouse_rules(),
            spec_game_over(old(self).spec_contest(), now, game_status) ==> {
                &&& final(self).spec_players() == old(self).spec_players()
                &&& final(self).spec_contest() == old(self).spec_contest()
                &&& actions@.len() == 1
                &&& actions@[0] matches ServerAction::Broadcast(
                    ServerEvent::GameOver { time_ms, game_status: status },
                )
                &&& spec_flag_test_time(old(self).spec_contest(), now) == Some(time_ms)
                &&& status == game_status
            },
            !spec_game_over(old(self).spec_contest(), now, game_status) ==> ({
                let players = spec_players_after(
                    old(self).spec_players(),
                    old(self).spec_contest(),
                    event,
                );
                let contest = spec_contest_after(old(self).spec_contest(), event, now);
                let starts = contest is Lobby && players.len() == TOTAL_PLAYERS && all_joined(
                    players,
                );
                &&& final(self).spec_players() == players
                &&& if starts {
                    &&& actions@.len() >= 1
                    &&& spec_event_actions(
                        old(self).spec_players(),
                        old(self).spec_contest(),
                        event,
                        now,
                        actions@.drop_last(),
                    )
                    &&& actions@.last() matches ServerAction::StartGame {
                        chess_rules,
                        bughouse_rules,
                        players: seated,
                    }
                    &&& chess_rules == old(self).spec_chess_rules()
                    &&& bughouse_rules == old(self).spec_bughouse_rules()
                    &&& final(self).spec_contest() matches ContestState::Game {
                        players: game_players,
                        game_start: None,
                    }
                    &&& game_players@ == seated@
                    &&& spec_valid_assignment(seated@, players)
                } else {
                    &&& spec_event_actions(
                        old(self).spec_players(),
                        old(self).spec_contest(),
                        event,
                        now,
                        actions@,
                    )
                    &&& final(self).spec_contest() == contest
                }
            }),
    {
        let mut actions: Vec<ServerAction> = Vec::new();
        if let Some(time_ms) = self.flag_test_time(now) {
            match game_status {
                BughouseGameStatus::Active => {},
                _ => {
                    actions.push(
                        ServerAction::Broadcast(ServerEvent::GameOver { time_ms, game_status }),
                    );
                    return actions;
                },
            }
        }
        match event {
            IncomingEvent::ClientConnected => {
                match self.contest_state {
                    ContestState::Lobby => {
                        let player_id = self.players.len();
                        self.players.push(None);
                        proof {
                            lemma_team_players_push_none(old(self).spec_players(), Team::Red);
                            lemma_team_players_push_none(old(self).spec_players(), Team::Blue);
                        }
                        actions.push(ServerAction::AcceptClient { player_id });
                    },
                    ContestState::Game { .. } => {
                        actions.push(
                            ServerAction::RejectClient {
                                message: String::from_str(
                                    "Cannot connect: game has already started",
                                ),
                            },
                        );
                    },
                }
            },
            IncomingEvent::ClientEvent(player_id, client_event) => {
                match client_event {
                    ClientEvent::Join { player_name, team } => {
                        match self.contest_state {
                            ContestState::Lobby => {
                                if self.players[player_id].is_some() {
                                    actions.push(
                                        ServerAction::SendError {
                                            player_id,
                                            message: String::from_str("Cannot join: already joined"),
                                        },
                                    );
                                } else if get_team_players(&self.players, team).len()
                                    >= TOTAL_PLAYERS_PER_TEAM {
                                    let mut message = String::from_str("Cannot join: team ");
                                    message.append(team_str(team));
                                    message.append(" is full");
                                    actions.push(ServerAction::SendError { player_id, message });
                                } else {
                                    proof {
                                        lemma_team_players_fill(
                                            old(self).spec_players(),
                                            player_id as int,
                                            Player { name: player_name, team },
                                            Team::Red,
                                        );
                                        lemma_team_players_fill(
                                            old(self).spec_players(),
                                            player_id as int,
                                            Player { name: player_name, team },
                                            Team::Blue,
                                        );
                                    }
                                    self.players.set(player_id, Some(Player { name: player_name, team }));
                                    let joined = get_joined_players(&self.players);
                                    actions.push(
                                        ServerAction::Broadcast(
                                            ServerEvent::LobbyUpdated { players: joined },
                                        ),
                                    );
                                }
                            },
                            ContestState::Game { .. } => {
                                actions.push(
                                    ServerAction::SendError {
                                        player_id,
                                        message: String::from_str(
                                            "Cannot join: game has already started",
                                        ),
                                    },
                                );
                            },
                        }
                    },
                    ClientEvent::MakeTurn { turn_algebraic } => {
                        let started = match &self.contest_state {
                            ContestState::Game { game_start, .. } => Some(*game_start),
                            ContestState::Lobby => None,
                        };
                        match started {
                            Some(game_start) => {
                                let start = match game_start {
                                    Some(t) => t,
                                    None => {
                                        let seated = take_seating(&mut self.contest_state);
                                        self.contest_state = ContestState::Game {
                                            players: seated,
                                            game_start: Some(now),
                                        };
                                        now
                                    },
                                };
                                let game_time_ms = game_time(start, now);
                                let player_name = match &self.players[player_id] {
                                    Some(p) => p.name.clone(),
                                    None => String::new(),
                                };
                                actions.push(
                                    ServerAction::ApplyTurn {
                                        player_id,
                                        player_name,
                                        turn_algebraic,
                                        game_time_ms,
                                    },
                                );
                            },
                            None => {
                                actions.push(
                                    ServerAction::SendError {
                                        player_id,
                                        message: String::from_str(
                                            "Cannot make turn: no game in progress",
                                        ),
                                    },
                                );
                            },
                        }
                    },
                    ClientEvent::Leave => {
                        actions.push(
                            ServerAction::Broadcast(
                                ServerEvent::Error {
                                    message: String::from_str("Oh no! Somebody left the party"),
                                },
                            ),
                        );
                    },
                }
            },
            IncomingEvent::Tick => {},
        }
        let ghost step_actions = actions@;
        let lobby = match self.contest_state {
            ContestState::Lobby => true,
            ContestState::Game { .. } => false,
        };
        if lobby && self.players.len() == TOTAL_PLAYERS && self.all_joined() {
            proof {
                lemma_full_lobby_teams(self.spec_players());
            }
            let seated = assign_boards(&self.players);
            let seated_copy = copy_seating(&seated);
            self.contest_state = ContestState::Game { players: seated, game_start: None };
            actions.push(
                ServerAction::StartGame {
                    chess_rules: self.chess_rules,
                    bughouse_rules: self.bughouse_rules,
                    players: seated_copy,
                },
            );
            assert(actions@.drop_last() =~= step_actions);
        }
        actions
    }

    fn all_joined(&self) -> (r: bool)
        ensures
            r == all_joined(self.spec_players()),
    {
        let mut i: usize = 0;
        while i < self.players.len()
            invariant
                i <= self.players.len(),
                forall|j: int| 0 <= j < i ==> (#[trigger] self.players@[j]) is Some,
            decreases self.players.len() - i,
        {
            if self.players[i].is_none() {
                return false;
            }
            i = i + 1;
        }
        true
    }
}

fn team_str(team: Team) -> (r: &'static str)
    ensures
        r@ == team_name(team),
{
    match team {
        Team::Red => "Red",
        Team::Blue => "Blue",
    }
}

/// Moves the seating out of a game state, leaving an empty seating behind.
fn take_seating(contest: &mut ContestState) -> (r: Vec<(Player, BughouseBoard)>)
    ensures
        *old(contest) matches ContestState::Game { players, .. } ==> r == players,
{
    match contest {
        ContestState::Game { players, .. } => {
            let mut taken: Vec<(Player, BughouseBoard)> = Vec::new();
            std::mem::swap(&mut taken, players);
            taken
        },
        ContestState::Lobby => Vec::new(),
    }
}

fn copy_seating(seated: &Vec<(Player, BughouseBoard)>) -> (r: Vec<(Player, BughouseBoard)>)
    ensures
        r@ == seated@,
{
    let mut r: Vec<(Player, BughouseBoard)> = Vec::new();
    let mut i: usize = 0;
    while i < seated.len()
        invariant
            i <= seated.len(),
            r@ == seated@.take(i as int),
        decreases seated.len() - i,
    {
        let (p, b) = &seated[i];
        r.push((p.duplicate(), *b));
        assert(r@ =~= seated@.take(i + 1));
        i = i + 1;
    }
    assert(seated@.take(seated.len() as int) =~= seated@);
    r
}

proof fn lemma_team_players_push_none(players: Seq<Option<Player>>, team: Team)
    ensures
        spec_team_players(players.push(None), team) == spec_team_players(players, team),
{
    assert(players.push(None).drop_last() =~= players);
}

/// Filling an empty slot adds the player to their team and changes no other team.
proof fn lemma_team_players_fill(players: Seq<Option<Player>>, i: int, p: Player, team: Team)
    requires
        0 <= i < players.len(),
        players[i] is None,
    ensures
        spec_team_players(players.update(i, Some(p)), team).len() == spec_team_players(
            players,
            team,
        ).len() + if p.team == team {
            1int
        } else {
            0int
        },
    decreases players.len(),
{
    let q = players.update(i, Some(p));
    if i == players.len() - 1 {
        assert(q.drop_last() =~= players.drop_last());
    } else {
        lemma_team_players_fill(players.drop_last(), i, p, team);
        assert(q.drop_last() =~= players.drop_last().update(i, Some(p)));
    }
}

/// The teams split the players who joined.
proof fn lemma_teams_split_joined(players: Seq<Option<Player>>)
    ensures
        spec_team_players(players, Team::Red).len() + spec_team_players(players, Team::Blue).len()
            == spec_joined_players(players).len(),
        all_joined(players) ==> spec_joined_players(players).len() == players.len(),
    decreases players.len(),
{
    if players.len() > 0 {
        lemma_teams_split_joined(players.drop_last());
        if all_joined(players) {
            assert(all_joined(players.drop_last())) by {
                assert forall|i: int| 0 <= i < players.drop_last().len() implies (
                #[trigger] players.drop_last()[i]) is Some by {
                    assert(players.drop_last()[i] == players[i]);
                }
            }
            assert(players[players.len() - 1] is Some);
        }
    }
}

/// In a full lobby of four joined players with no team over two, each team has exactly two.
proof fn lemma_full_lobby_teams(players: Seq<Option<Player>>)
    requires
        players.len() == TOTAL_PLAYERS,
        all_joined(players),
        spec_team_players(players, Team::Red).len() <= TOTAL_PLAYERS_PER_TEAM,
        spec_team_players(players, Team::Blue).len() <= TOTAL_PLAYERS_PER_TEAM,
    ensures
        spec_team_players(players, Team::Red).len() == TOTAL_PLAYERS_PER_TEAM,
        spec_team_players(players, Team::Blue).len() == TOTAL_PLAYERS_PER_TEAM,
{
    lemma_teams_split_joined(players);
}


/// A player who has joined keeps their slot: no event empties or changes it.
pub proof fn lemma_joined_players_stay(
    players: Seq<Option<Player>>,
    contest: ContestState,
    event: IncomingEvent,
    i: int,
)
    requires
        0 <= i < players.len(),
        players[i] is Some,
        event matches IncomingEvent::ClientEvent(id, _) ==> id < players.len(),
    ensures
        spec_players_after(players, contest, event)[i] == players[i],
{
}

/// Once a game is in progress, no event brings the server back to the lobby, and the
/// seating never changes.
pub proof fn lemma_game_stays(contest: ContestState, event: IncomingEvent, now: u64)
    requires
        contest is Game,
    ensures
        spec_contest_after(contest, event, now) matches ContestState::Game { players, .. }
            && players == contest->players,
{
}

/// Connections are only added in the lobby, one per connection event; slots are never
/// removed.
pub proof fn lemma_player_slots(players: Seq<Option<Player>>, contest: ContestState, event: IncomingEvent)
    requires
        event matches IncomingEvent::ClientEvent(id, _) ==> id < players.len(),
    ensures
        spec_players_after(players, contest, event).len() == players.len() + if event is ClientConnected
            && contest is Lobby {
            1int
        } else {
            0int
        },
{
}

} // verus!
