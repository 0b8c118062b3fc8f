use bughouse_chess::game::{BughouseBoard, BughouseGameStatus, Team, VictoryReason};
use bughouse_chess::rules::{DropAggression, StartingPosition};
use bughouse_chess::server::{
    assign_boards, get_team_players, ClientEvent, ContestState, IncomingEvent, Player,
    ServerAction, ServerEvent, ServerState,
};

fn join(id: usize, name: &str, team: Team) -> IncomingEvent {
    IncomingEvent::ClientEvent(id, ClientEvent::Join { player_name: name.to_owned(), team })
}

fn error_message(actions: &[ServerAction]) -> Option<(usize, String)> {
    match actions {
        [ServerAction::SendError { player_id, message }] => Some((*player_id, message.clone())),
        _ => None,
    }
}

fn lobby_names(actions: &[ServerAction]) -> Vec<String> {
    match actions {
        [ServerAction::Broadcast(ServerEvent::LobbyUpdated { players }), ..] => {
            players.iter().map(|p| p.name.clone()).collect()
        }
        _ => panic!("expected a lobby update"),
    }
}

fn connect(state: &mut ServerState, expected_id: usize) {
    let actions = state.apply_event(IncomingEvent::ClientConnected, 0, BughouseGameStatus::Active);
    assert!(matches!(actions.as_slice(), [ServerAction::AcceptClient { player_id }] if *player_id == expected_id));
}

#[test]
fn lobby_fills_and_game_starts() {
    let mut state = ServerState::new();
    for id in 0..4 {
        connect(&mut state, id);
    }
    assert_eq!(lobby_names(&state.apply_event(join(0, "alice", Team::Red), 0, BughouseGameStatus::Active)), vec!["alice"]);
    assert_eq!(lobby_names(&state.apply_event(join(1, "bob", Team::Blue), 0, BughouseGameStatus::Active)), vec!["alice", "bob"]);
    assert_eq!(
        error_message(&state.apply_event(join(1, "bob", Team::Blue), 0, BughouseGameStatus::Active)),
        Some((1, "Cannot join: already joined".to_owned()))
    );
    assert_eq!(
        lobby_names(&state.apply_event(join(2, "carol", Team::Red), 0, BughouseGameStatus::Active)),
        vec!["alice", "bob", "carol"]
    );
    assert_eq!(
        error_message(&state.apply_event(join(3, "dave", Team::Red), 0, BughouseGameStatus::Active)),
        Some((3, "Cannot join: team Red is full".to_owned()))
    );
    let actions = state.apply_event(join(3, "dave", Team::Blue), 0, BughouseGameStatus::Active);
    assert_eq!(actions.len(), 2);
    assert_eq!(lobby_names(&actions), vec!["alice", "bob", "carol", "dave"]);
    match &actions[1] {
        ServerAction::StartGame { chess_rules, bughouse_rules, players } => {
            assert_eq!(chess_rules.starting_position, StartingPosition::FischerRandom);
            assert_eq!(chess_rules.time_control.starting_time_ms, 300_000);
            assert_eq!(bughouse_rules.min_pawn_drop_row.idx, 1);
            assert_eq!(bughouse_rules.max_pawn_drop_row.idx, 5);
            assert_eq!(bughouse_rules.drop_aggression, DropAggression::NoChessMate);
            assert_eq!(players.len(), 4);
            let red: Vec<&str> = players[0..2].iter().map(|(p, _)| p.name.as_str()).collect();
            let blue: Vec<&str> = players[2..4].iter().map(|(p, _)| p.name.as_str()).collect();
            assert!(red == ["alice", "carol"] || red == ["carol", "alice"]);
            assert!(blue == ["bob", "dave"] || blue == ["dave", "bob"]);
            assert_eq!(players[0].1, BughouseBoard::A);
            assert_eq!(players[1].1, BughouseBoard::B);
            assert_eq!(players[2].1, BughouseBoard::A);
            assert_eq!(players[3].1, BughouseBoard::B);
        }
        _ => panic!("expected the game to start"),
    }
}

fn started_game() -> ServerState {
    let mut state = ServerState::new();
    for id in 0..4 {
        connect(&mut state, id);
    }
    state.apply_event(join(0, "alice", Team::Red), 0, BughouseGameStatus::Active);
    state.apply_event(join(1, "bob", Team::Blue), 0, BughouseGameStatus::Active);
    state.apply_event(join(2, "carol", Team::Red), 0, BughouseGameStatus::Active);
    state.apply_event(join(3, "dave", Team::Blue), 0, BughouseGameStatus::Active);
    state
}

#[test]
fn no_joining_or_connecting_during_a_game() {
    let mut state = started_game();
    assert_eq!(
        error_message(&state.apply_event(join(0, "alice", Team::Red), 5, BughouseGameStatus::Active)),
        Some((0, "Cannot join: game has already started".to_owned()))
    );
    let actions = state.apply_event(IncomingEvent::ClientConnected, 5, BughouseGameStatus::Active);
    assert!(matches!(actions.as_slice(),
        [ServerAction::RejectClient { message }] if message == "Cannot connect: game has already started"));
}

#[test]
fn turns_are_timed_from_the_first_turn() {
    let mut state = started_game();
    let turn = |id: usize, t: &str| IncomingEvent::ClientEvent(id, ClientEvent::MakeTurn { turn_algebraic: t.to_owned() });
    let actions = state.apply_event(turn(0, "e4"), 1000, BughouseGameStatus::Active);
    match actions.as_slice() {
        [ServerAction::ApplyTurn { player_id, player_name, turn_algebraic, game_time_ms }] => {
            assert_eq!(*player_id, 0);
            assert_eq!(player_name, "alice");
            assert_eq!(turn_algebraic, "e4");
            assert_eq!(*game_time_ms, 0);
        }
        _ => panic!("expected a turn"),
    }
    let actions = state.apply_event(turn(1, "e5"), 3500, BughouseGameStatus::Active);
    match actions.as_slice() {
        [ServerAction::ApplyTurn { player_name, game_time_ms, .. }] => {
            assert_eq!(player_name, "bob");
            assert_eq!(*game_time_ms, 2500);
        }
        _ => panic!("expected a turn"),
    }
}

#[test]
fn lobby_rejects_turns_and_announces_leaving() {
    let mut state = ServerState::new();
    connect(&mut state, 0);
    let actions = state.apply_event(
        IncomingEvent::ClientEvent(0, ClientEvent::MakeTurn { turn_algebraic: "e4".to_owned() }),
        0, BughouseGameStatus::Active);
    assert_eq!(error_message(&actions), Some((0, "Cannot make turn: no game in progress".to_owned())));
    let actions = state.apply_event(IncomingEvent::ClientEvent(0, ClientEvent::Leave), 0, BughouseGameStatus::Active);
    assert!(matches!(actions.as_slice(),
        [ServerAction::Broadcast(ServerEvent::Error { message })] if message == "Oh no! Somebody left the party"));
    assert!(state.apply_event(IncomingEvent::Tick, 0, BughouseGameStatus::Active).is_empty());
}

#[test]
fn team_players_and_board_assignment() {
    let player = |name: &str, team| Some(Player { name: name.to_owned(), team });
    let players = vec![
        player("alice", Team::Red),
        player("bob", Team::Blue),
        None,
        player("carol", Team::Red),
        player("dave", Team::Blue),
    ];
    let red: Vec<String> = get_team_players(&players, Team::Red).into_iter().map(|p| p.name).collect();
    assert_eq!(red, vec!["alice", "carol"]);
    let seated = assign_boards(&players);
    assert_eq!(seated.len(), 4);
    assert_eq!(seated[0].0.team, Team::Red);
    assert_eq!(seated[1].0.team, Team::Red);
    assert_eq!(seated[2].0.team, Team::Blue);
    assert_eq!(seated[3].0.team, Team::Blue);
    assert_ne!(seated[0].0.name, seated[1].0.name);
    let _ = ContestState::Lobby;
}

#[test]
fn a_fallen_flag_ends_the_game_and_ignores_the_event() {
    let mut state = started_game();
    let turn = |id: usize, t: &str| IncomingEvent::ClientEvent(id, ClientEvent::MakeTurn { turn_algebraic: t.to_owned() });
    // Before the first turn no clock runs: the status is not read.
    let lost = BughouseGameStatus::Victory(Team::Blue, VictoryReason::Flag);
    assert_eq!(state.flag_test_time(500), None);
    let actions = state.apply_event(turn(0, "e4"), 1000, lost);
    assert!(matches!(actions.as_slice(), [ServerAction::ApplyTurn { .. }]));
    assert_eq!(state.flag_test_time(301_500), Some(300_500));
    let actions = state.apply_event(turn(1, "e5"), 301_500, lost);
    match actions.as_slice() {
        [ServerAction::Broadcast(ServerEvent::GameOver { time_ms, game_status })] => {
            assert_eq!(*time_ms, 300_500);
            assert_eq!(*game_status, lost);
        }
        _ => panic!("expected the game to be over"),
    }
    // The ignored turn did not change the clock.
    assert_eq!(state.flag_test_time(2000), Some(1000));
}
