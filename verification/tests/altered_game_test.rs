use bughouse_chess::altered_game::{
    board_turn_log_modulo_wayback, discard_invalid_local_turns, get_turn_highlight_basis,
    num_preturns_on_board, reconcile_local_turns, get_turn_highlights,
    turn_highlight_z_index, AlteredGame, PieceDrag, PieceDragError, PieceDragSource,
    PieceDragStart, TurnHighlight, TurnHighlightFamily, TurnHighlightItem, TurnHighlightLayer,
};
use bughouse_chess::board::{Board, Reserve};
use bughouse_chess::coord::Coord;
use bughouse_chess::force::Force;
use bughouse_chess::game::{
    BughouseBoard, BughouseEnvoy, BughouseParticipant, BughousePlayer, PerBoard, Team,
};
use bughouse_chess::piece::{CastleDirection, PieceKind, PieceOnBoard, PieceOrigin};
use bughouse_chess::turn::{
    PieceCapture, Turn, TurnDrop, TurnError, TurnExpanded, TurnInput, TurnMode, TurnMove,
    TurnRecordExpanded,
};
use BughouseBoard::{A, B};
use TurnHighlightFamily as Fam;
use TurnHighlightItem as Item;
use TurnHighlightLayer as Layer;
use TurnMode as Mode;

fn sq(name: &str) -> Coord {
    let bytes = name.as_bytes();
    Coord::new((bytes[1] - b'1') as i8, (bytes[0] - b'a') as i8).unwrap()
}

fn envoy(force: Force, board_idx: BughouseBoard) -> BughouseEnvoy {
    BughouseEnvoy { board_idx, force }
}

fn single_player(force: Force, board_idx: BughouseBoard) -> BughouseParticipant {
    BughouseParticipant::Player(BughousePlayer::SinglePlayer(envoy(force, board_idx)))
}

fn piece(kind: PieceKind, force: Force) -> Option<PieceOnBoard> {
    Some(PieceOnBoard::new(kind, PieceOrigin::Innate, force))
}

fn boards() -> PerBoard<Board> {
    PerBoard { a: Board::empty(), b: Board::empty() }
}

fn moved(from: &str, to: &str) -> TurnExpanded {
    TurnExpanded { relocation: Some((sq(from), sq(to))), relocation_extra: None, drop: None, capture: None }
}

fn captured(from: &str, to: &str) -> TurnExpanded {
    TurnExpanded { capture: Some(PieceCapture { from: sq(to) }), ..moved(from, to) }
}

fn record(force: Force, board_idx: BughouseBoard, mode: TurnMode, turn: TurnExpanded, index: &str) -> TurnRecordExpanded {
    TurnRecordExpanded { envoy: envoy(force, board_idx), mode, turn_expanded: turn, index: index.to_owned() }
}

fn highlight(
    board_idx: BughouseBoard, coord: &str, layer: TurnHighlightLayer, family: TurnHighlightFamily,
    item: TurnHighlightItem,
) -> TurnHighlight {
    TurnHighlight { board_idx, coord: sq(coord), layer, family, item }
}

fn sorted(mut highlights: Vec<TurnHighlight>) -> Vec<TurnHighlight> {
    highlights.sort_by_key(|h| (h.board_idx == B, h.coord.row, h.coord.col));
    highlights
}

#[test]
fn z_index_orders_highlights() {
    assert_eq!(turn_highlight_z_index(&highlight(A, "e4", Layer::AboveFog, Fam::LatestTurn, Item::MoveFrom)), (1, 0, 0));
    assert_eq!(turn_highlight_z_index(&highlight(A, "e4", Layer::BelowFog, Fam::Preturn, Item::Capture)), (0, 1, 3));
    assert_eq!(turn_highlight_z_index(&highlight(A, "e4", Layer::BelowFog, Fam::LatestTurn, Item::MoveTo)), (0, 0, 2));
    assert_eq!(turn_highlight_z_index(&highlight(A, "e4", Layer::BelowFog, Fam::LatestTurn, Item::Drop)), (0, 0, 1));
}

#[test]
fn highlight_basis_lists_touched_squares() {
    let turn = TurnExpanded {
        relocation: Some((sq("e1"), sq("g1"))),
        relocation_extra: Some((sq("h1"), sq("f1"))),
        drop: None,
        capture: None,
    };
    assert_eq!(get_turn_highlight_basis(&turn), vec![
        (TurnHighlightItem::MoveFrom, sq("e1")),
        (TurnHighlightItem::MoveTo, sq("g1")),
        (TurnHighlightItem::MoveFrom, sq("h1")),
        (TurnHighlightItem::MoveTo, sq("f1")),
    ]);
    let drop = TurnExpanded { relocation: None, relocation_extra: None, drop: Some(sq("c3")), capture: None };
    assert_eq!(get_turn_highlight_basis(&drop), vec![(TurnHighlightItem::Drop, sq("c3"))]);
    assert_eq!(get_turn_highlight_basis(&captured("e4", "d5")), vec![
        (TurnHighlightItem::MoveFrom, sq("e4")),
        (TurnHighlightItem::MoveTo, sq("d5")),
        (TurnHighlightItem::Capture, sq("d5")),
    ]);
}

#[test]
fn highlights_in_the_fog() {
    let fog = vec![sq("d5")];
    assert_eq!(get_turn_highlights(Fam::LatestTurn, A, &captured("e4", "d5"), &fog), vec![
        highlight(A, "e4", Layer::BelowFog, Fam::LatestTurn, Item::MoveFrom),
        highlight(A, "d5", Layer::AboveFog, Fam::LatestTurn, Item::Capture),
    ]);
    assert_eq!(get_turn_highlights(Fam::Preturn, B, &moved("e4", "d5"), &fog), vec![
        highlight(B, "e4", Layer::BelowFog, Fam::Preturn, Item::MoveFrom),
    ]);
    assert_eq!(get_turn_highlights(Fam::Preturn, B, &moved("e4", "d5"), &vec![]), vec![
        highlight(B, "e4", Layer::BelowFog, Fam::Preturn, Item::MoveFrom),
        highlight(B, "d5", Layer::BelowFog, Fam::Preturn, Item::MoveTo),
    ]);
}

fn sample_log() -> Vec<TurnRecordExpanded> {
    vec![
        record(Force::White, A, Mode::Normal, moved("a2", "a4"), "0"),
        record(Force::White, B, Mode::Normal, moved("h2", "h4"), "1"),
        record(Force::Black, A, Mode::Normal, moved("a7", "a5"), "2"),
        record(Force::White, A, Mode::Normal, moved("b2", "b4"), "3"),
        record(Force::Black, B, Mode::Normal, moved("h7", "h5"), "4"),
        record(Force::Black, A, Mode::Normal, moved("b7", "b5"), "5"),
    ]
}

fn indices(log: &[TurnRecordExpanded]) -> Vec<String> {
    log.iter().map(|r| r.index.clone()).collect()
}

#[test]
fn board_turn_log_and_wayback() {
    let log = sample_log();
    assert_eq!(indices(&board_turn_log_modulo_wayback(&log, A, None)), vec!["0", "2", "3", "5"]);
    assert_eq!(indices(&board_turn_log_modulo_wayback(&log, B, None)), vec!["1", "4"]);
    assert_eq!(indices(&board_turn_log_modulo_wayback(&log, A, Some("2"))), vec!["0", "2"]);
    // An index that is not on this board keeps the first turn at or after it.
    assert_eq!(indices(&board_turn_log_modulo_wayback(&log, A, Some("1"))), vec!["0", "2"]);
    assert_eq!(indices(&board_turn_log_modulo_wayback(&log, B, Some("5"))), vec!["1", "4"]);
    assert_eq!(indices(&board_turn_log_modulo_wayback(&log, A, Some("0"))), vec!["0"]);
}

#[test]
fn turn_indices_compare_as_strings() {
    let log = vec![
        record(Force::White, A, TurnMode::Normal, moved("a2", "a4"), "09"),
        record(Force::Black, A, TurnMode::Normal, moved("a7", "a5"), "10"),
        record(Force::White, A, TurnMode::Normal, moved("b2", "b4"), "11"),
    ];
    assert_eq!(indices(&board_turn_log_modulo_wayback(&log, A, Some("1"))), vec!["09", "10"]);
}

fn start_position_board() -> Board {
    let mut board = Board::empty();
    board.set_piece(sq("e2"), piece(PieceKind::Pawn, Force::White));
    board.set_piece(sq("e1"), piece(PieceKind::King, Force::White));
    board.set_piece(sq("g7"), piece(PieceKind::Pawn, Force::White));
    board.set_piece(sq("e7"), piece(PieceKind::Pawn, Force::Black));
    let mut reserve = Reserve::empty();
    reserve.set_count(PieceKind::Knight, 1);
    board.set_reserve(Force::White, reserve);
    board
}

#[test]
fn drag_and_drop_a_move() {
    let mut alt_game = AlteredGame::new(single_player(Force::White, A));
    let board = start_position_board();
    alt_game.start_drag_piece(A, PieceDragStart::Board(sq("e2")), &board).unwrap();
    assert_eq!(alt_game.piece_drag_state(), &Some(PieceDrag {
        board_idx: A,
        piece_kind: PieceKind::Pawn,
        piece_force: Force::White,
        source: PieceDragSource::Board(sq("e2")),
    }));
    assert_eq!(
        alt_game.drag_piece_drop(sq("e4"), PieceKind::Queen),
        Ok(TurnInput::DragDrop(Turn::Move(TurnMove { from: sq("e2"), to: sq("e4"), promote_to: None })))
    );
    assert_eq!(alt_game.piece_drag_state(), &None);
    assert_eq!(alt_game.drag_piece_drop(sq("e4"), PieceKind::Queen), Err(PieceDragError::NoDragInProgress));
}

#[test]
fn drop_on_source_cancels() {
    let mut alt_game = AlteredGame::new(single_player(Force::White, A));
    let board = start_position_board();
    alt_game.start_drag_piece(A, PieceDragStart::Board(sq("e2")), &board).unwrap();
    assert_eq!(alt_game.drag_piece_drop(sq("e2"), PieceKind::Queen), Err(PieceDragError::Cancelled));
    assert_eq!(alt_game.piece_drag_state(), &None);
}

#[test]
fn drag_king_castles() {
    let board = start_position_board();
    let mut alt_game = AlteredGame::new(single_player(Force::White, A));
    alt_game.start_drag_piece(A, PieceDragStart::Board(sq("e1")), &board).unwrap();
    assert_eq!(
        alt_game.drag_piece_drop(sq("g1"), PieceKind::Queen),
        Ok(TurnInput::DragDrop(Turn::Castle(CastleDirection::HSide)))
    );
    alt_game.start_drag_piece(A, PieceDragStart::Board(sq("e1")), &board).unwrap();
    assert_eq!(
        alt_game.drag_piece_drop(sq("b1"), PieceKind::Queen),
        Ok(TurnInput::DragDrop(Turn::Castle(CastleDirection::ASide)))
    );
    alt_game.start_drag_piece(A, PieceDragStart::Board(sq("e1")), &board).unwrap();
    assert_eq!(
        alt_game.drag_piece_drop(sq("f1"), PieceKind::Queen),
        Ok(TurnInput::DragDrop(Turn::Move(TurnMove { from: sq("e1"), to: sq("f1"), promote_to: None })))
    );
}

#[test]
fn drag_pawn_promotes() {
    let board = start_position_board();
    let mut alt_game = AlteredGame::new(single_player(Force::White, A));
    alt_game.start_drag_piece(A, PieceDragStart::Board(sq("g7")), &board).unwrap();
    assert_eq!(
        alt_game.drag_piece_drop(sq("g8"), PieceKind::Knight),
        Ok(TurnInput::DragDrop(Turn::Move(TurnMove {
            from: sq("g7"),
            to: sq("g8"),
            promote_to: Some(PieceKind::Knight),
        })))
    );
}

#[test]
fn drag_from_reserve_drops() {
    let board = start_position_board();
    let mut alt_game = AlteredGame::new(single_player(Force::White, A));
    assert_eq!(
        alt_game.start_drag_piece(A, PieceDragStart::Reserve(PieceKind::Queen), &board),
        Err(PieceDragError::PieceNotFound)
    );
    alt_game.start_drag_piece(A, PieceDragStart::Reserve(PieceKind::Knight), &board).unwrap();
    assert_eq!(
        alt_game.drag_piece_drop(sq("c3"), PieceKind::Queen),
        Ok(TurnInput::DragDrop(Turn::Drop(TurnDrop { piece_kind: PieceKind::Knight, to: sq("c3") })))
    );
}

#[test]
fn drag_errors() {
    let board = start_position_board();
    let mut observer = AlteredGame::new(BughouseParticipant::Observer);
    assert_eq!(
        observer.start_drag_piece(A, PieceDragStart::Board(sq("e2")), &board),
        Err(PieceDragError::DragForbidden)
    );
    let mut alt_game = AlteredGame::new(single_player(Force::White, A));
    assert_eq!(
        alt_game.start_drag_piece(B, PieceDragStart::Board(sq("e2")), &board),
        Err(PieceDragError::DragForbidden)
    );
    assert_eq!(
        alt_game.start_drag_piece(A, PieceDragStart::Board(sq("e7")), &board),
        Err(PieceDragError::DragForbidden)
    );
    assert_eq!(
        alt_game.start_drag_piece(A, PieceDragStart::Board(sq("d4")), &board),
        Err(PieceDragError::PieceNotFound)
    );
    alt_game.start_drag_piece(A, PieceDragStart::Board(sq("e2")), &board).unwrap();
    assert_eq!(
        alt_game.start_drag_piece(A, PieceDragStart::Board(sq("e1")), &board),
        Err(PieceDragError::DragAlreadyStarted)
    );
}

#[test]
fn double_player_drags_on_both_boards() {
    let mut board_b = Board::empty();
    board_b.set_piece(sq("d7"), piece(PieceKind::Pawn, Force::Black));
    let mut alt_game =
        AlteredGame::new(BughouseParticipant::Player(BughousePlayer::DoublePlayer(Team::Red)));
    alt_game.start_drag_piece(B, PieceDragStart::Board(sq("d7")), &board_b).unwrap();
    assert_eq!(
        alt_game.drag_piece_drop(sq("d5"), PieceKind::Queen),
        Ok(TurnInput::DragDrop(Turn::Move(TurnMove { from: sq("d7"), to: sq("d5"), promote_to: None })))
    );
}

#[test]
fn abort_drag() {
    let board = start_position_board();
    let mut alt_game = AlteredGame::new(single_player(Force::White, A));
    alt_game.start_drag_piece(A, PieceDragStart::Board(sq("e2")), &board).unwrap();
    alt_game.abort_drag_piece_on_board(B);
    assert!(alt_game.piece_drag_state().is_some());
    alt_game.abort_drag_piece_on_board(A);
    assert!(alt_game.piece_drag_state().is_none());
    alt_game.start_drag_piece(A, PieceDragStart::Board(sq("e2")), &board).unwrap();
    alt_game.abort_drag_piece();
    assert!(alt_game.piece_drag_state().is_none());
}

#[test]
fn apply_drag_lifts_the_piece() {
    let mut alt_game = AlteredGame::new(single_player(Force::White, A));
    let mut position = boards();
    position.a = start_position_board();
    alt_game.start_drag_piece(A, PieceDragStart::Board(sq("e2")), &position.a).unwrap();
    assert_eq!(alt_game.apply_drag(&mut position), Ok(()));
    assert_eq!(position.a.piece_at(sq("e2")), None);
    assert_eq!(position.a.piece_at(sq("e1")), piece(PieceKind::King, Force::White));
    // The piece is gone now: lifting it again fails.
    assert_eq!(alt_game.apply_drag(&mut position), Err(()));

    let mut alt_game = AlteredGame::new(single_player(Force::White, A));
    let mut position = boards();
    position.a = start_position_board();
    alt_game.start_drag_piece(A, PieceDragStart::Reserve(PieceKind::Knight), &position.a).unwrap();
    assert_eq!(alt_game.apply_drag(&mut position), Ok(()));
    assert_eq!(position.a.reserve(Force::White).count(PieceKind::Knight), 0);
    assert_eq!(alt_game.apply_drag(&mut position), Err(()));
}

#[test]
fn wayback_to_turn() {
    let log = sample_log();
    let mut alt_game = AlteredGame::new(single_player(Force::White, A));
    assert_eq!(alt_game.wayback_turn_index(A), None);
    alt_game.wayback_to_turn(A, Some("2".to_owned()), &log);
    assert_eq!(alt_game.wayback_turn_index(A), Some("2"));
    assert_eq!(alt_game.wayback_turn_index(B), None);
    // Going to the last turn of the board shows the current position.
    alt_game.wayback_to_turn(A, Some("5".to_owned()), &log);
    assert_eq!(alt_game.wayback_turn_index(A), None);
    alt_game.wayback_to_turn(B, Some("1".to_owned()), &log);
    assert_eq!(alt_game.wayback_turn_index(B), Some("1"));
    alt_game.wayback_to_turn(B, None, &log);
    assert_eq!(alt_game.wayback_turn_index(B), None);
    // No drags while looking at history.
    alt_game.wayback_to_turn(A, Some("0".to_owned()), &log);
    let board = start_position_board();
    assert_eq!(
        alt_game.start_drag_piece(A, PieceDragStart::Board(sq("e2")), &board),
        Err(PieceDragError::DragForbidden)
    );
}

#[test]
fn turn_highlights() {
    let alt_game = AlteredGame::new(single_player(Force::White, A));
    let log = vec![
        record(Force::White, A, Mode::Normal, moved("e2", "e3"), "0"),
        record(Force::Black, A, Mode::Normal, moved("d7", "d5"), "1"),
        record(Force::White, B, Mode::Normal, moved("e2", "e4"), "2"),
        record(Force::Black, B, Mode::Normal, moved("d7", "d5"), "3"),
        record(Force::White, B, Mode::Normal, captured("e4", "d5"), "4"),
        record(Force::White, A, Mode::Normal, moved("e3", "e4"), "5"),
        record(Force::White, A, Mode::Preturn, moved("e4", "d5"), "6"),
    ];
    let fog = PerBoard { a: vec![], b: vec![] };
    assert_eq!(sorted(alt_game.turn_highlights(&log, false, &fog)), vec![
        highlight(A, "e4", Layer::BelowFog, Fam::Preturn, Item::MoveFrom),
        highlight(A, "d5", Layer::BelowFog, Fam::Preturn, Item::MoveTo),
        highlight(B, "e4", Layer::BelowFog, Fam::LatestTurn, Item::MoveFrom),
        highlight(B, "d5", Layer::BelowFog, Fam::LatestTurn, Item::Capture),
    ]);
}

#[test]
fn turn_highlights_of_a_megaturn() {
    let alt_game = AlteredGame::new(single_player(Force::White, A));
    let duck = TurnExpanded { relocation: None, relocation_extra: None, drop: Some(sq("c3")), capture: None };
    let log = vec![
        record(Force::White, A, Mode::Normal, moved("e2", "e4"), "0"),
        record(Force::Black, A, Mode::Normal, moved("d7", "d5"), "1"),
        record(Force::Black, A, Mode::Normal, duck, "2"),
    ];
    let fog = PerBoard { a: vec![], b: vec![] };
    assert_eq!(sorted(alt_game.turn_highlights(&log, false, &fog)), vec![
        highlight(A, "c3", Layer::BelowFog, Fam::LatestTurn, Item::Drop),
        highlight(A, "d5", Layer::BelowFog, Fam::LatestTurn, Item::MoveTo),
        highlight(A, "d7", Layer::BelowFog, Fam::LatestTurn, Item::MoveFrom),
    ]);
    // No highlights of one's own latest turn...
    let mut log = log;
    log.push(record(Force::White, A, Mode::Normal, moved("g1", "f3"), "3"));
    assert!(alt_game.turn_highlights(&log, false, &fog).is_empty());
}

#[test]
fn wayback_turn_highlight() {
    let mut alt_game = AlteredGame::new(single_player(Force::White, A));
    let log = vec![
        record(Force::White, A, Mode::Normal, moved("e2", "e4"), "0"),
        record(Force::Black, A, Mode::Normal, moved("e7", "e5"), "1"),
        record(Force::White, A, Mode::Normal, moved("b1", "c3"), "2"),
        record(Force::Black, A, Mode::Normal, moved("g8", "f6"), "3"),
    ];
    let fog = PerBoard { a: vec![], b: vec![] };
    alt_game.wayback_to_turn(A, Some("2".to_owned()), &log);
    // ... but one's own turn is highlighted when looking back.
    assert_eq!(sorted(alt_game.turn_highlights(&log, false, &fog)), vec![
        highlight(A, "b1", Layer::BelowFog, Fam::LatestTurn, Item::MoveFrom),
        highlight(A, "c3", Layer::BelowFog, Fam::LatestTurn, Item::MoveTo),
    ]);
}

#[test]
fn turn_highlights_hide_squares_in_the_fog() {
    let alt_game = AlteredGame::new(single_player(Force::White, A));
    // The opponent moved from a square in the fog: only the destination is shown.
    let log = vec![
        record(Force::White, A, Mode::Normal, moved("e2", "e4"), "0"),
        record(Force::Black, A, Mode::Normal, moved("g8", "f6"), "1"),
    ];
    let fog = PerBoard { a: vec![sq("g8")], b: vec![] };
    assert_eq!(sorted(alt_game.turn_highlights(&log, false, &fog)), vec![
        highlight(A, "f6", Layer::BelowFog, Fam::LatestTurn, Item::MoveTo),
    ]);
    // Seeing through the fog reveals the origin.
    assert_eq!(sorted(alt_game.turn_highlights(&log, true, &fog)), vec![
        highlight(A, "f6", Layer::BelowFog, Fam::LatestTurn, Item::MoveTo),
        highlight(A, "g8", Layer::BelowFog, Fam::LatestTurn, Item::MoveFrom),
    ]);
    // A captured piece of one's own is shown above the fog.
    let log = vec![
        record(Force::White, A, Mode::Normal, moved("e2", "e4"), "0"),
        record(Force::Black, A, Mode::Normal, captured("d5", "e4"), "1"),
    ];
    let fog = PerBoard { a: vec![sq("d5"), sq("e4")], b: vec![] };
    assert_eq!(sorted(alt_game.turn_highlights(&log, false, &fog)), vec![
        highlight(A, "e4", Layer::AboveFog, Fam::LatestTurn, Item::Capture),
    ]);
}

#[test]
fn preturn_fog_of_war() {
    let mut board = Board::empty();
    board.set_piece(sq("e5"), piece(PieceKind::Pawn, Force::Black));
    board.set_piece(sq("e4"), piece(PieceKind::Pawn, Force::White));
    let fog_free: Vec<Coord> = (0..8).flat_map(|c| [Coord::new(6, c).unwrap(), Coord::new(7, c).unwrap()]).collect();
    let mut alt_game = AlteredGame::new(single_player(Force::Black, A));
    let area = alt_game.fog_of_war_area(A, true, &fog_free, &board);
    assert_eq!(area.len(), 64 - 16 - 1);
    assert!(!area.contains(&sq("e5")));
    assert!(area.contains(&sq("e4")));
    assert!(!area.contains(&sq("a8")));
    // No fog without fog of war, nor for observers.
    assert!(alt_game.fog_of_war_area(A, false, &fog_free, &board).is_empty());
    let observer = AlteredGame::new(BughouseParticipant::Observer);
    assert!(observer.fog_of_war_area(A, true, &fog_free, &board).is_empty());
}

#[test]
fn wayback_affects_fog_of_war() {
    let mut board = Board::empty();
    board.set_piece(sq("e5"), piece(PieceKind::Pawn, Force::Black));
    let fog_free: Vec<Coord> = (0..8).flat_map(|c| [Coord::new(6, c).unwrap(), Coord::new(7, c).unwrap()]).collect();
    let mut alt_game = AlteredGame::new(single_player(Force::Black, A));
    assert!(!alt_game.fog_of_war_area(A, true, &fog_free, &board).contains(&sq("e5")));
    // When looking back, the pieces of the position shown with local turns are hidden.
    alt_game.wayback_to_turn(A, Some("0".to_owned()), &vec![record(
        Force::White,
        A,
        TurnMode::Normal,
        moved("e2", "e4"),
        "1",
    )]);
    assert!(alt_game.fog_of_war_area(A, true, &fog_free, &board).contains(&sq("e5")));
}

#[test]
fn preturns_through_one_square_highlight_it_once() {
    let alt_game = AlteredGame::new(single_player(Force::White, A));
    // Two preturns through e4: the square is highlighted once, as the higher-ranked target.
    let log = vec![
        record(Force::Black, A, Mode::Normal, moved("d7", "d6"), "0"),
        record(Force::White, A, Mode::Preturn, moved("e2", "e4"), "1"),
        record(Force::White, A, Mode::Preturn, moved("e4", "e5"), "2"),
    ];
    let fog = PerBoard { a: vec![], b: vec![] };
    assert_eq!(sorted(alt_game.turn_highlights(&log, false, &fog)), vec![
        highlight(A, "e2", Layer::BelowFog, Fam::Preturn, Item::MoveFrom),
        highlight(A, "e4", Layer::BelowFog, Fam::Preturn, Item::MoveTo),
        highlight(A, "e5", Layer::BelowFog, Fam::Preturn, Item::MoveTo),
    ]);
}

fn reconcile_sample() -> Vec<TurnRecordExpanded> {
    vec![
        record(Force::White, A, Mode::Normal, moved("e2", "e4"), "0"),
        record(Force::White, B, Mode::Normal, moved("d2", "d4"), "1"),
        record(Force::White, A, Mode::Preturn, moved("e4", "e5"), "2"),
    ]
}

#[test]
fn confirmed_local_turn_is_dropped() {
    let mut turns = reconcile_sample();
    reconcile_local_turns(&mut turns, envoy(Force::White, A), true);
    assert_eq!(indices(&turns), vec!["1", "2"]);
}

#[test]
fn differing_confirmed_turn_drops_all_own_turns() {
    let mut turns = reconcile_sample();
    reconcile_local_turns(&mut turns, envoy(Force::White, A), false);
    assert_eq!(indices(&turns), vec!["1"]);
}

#[test]
fn turns_of_others_are_kept() {
    let mut turns = reconcile_sample();
    reconcile_local_turns(&mut turns, envoy(Force::Black, A), false);
    assert_eq!(indices(&turns), vec!["0", "1", "2"]);
}

#[test]
fn invalidated_drag_cannot_be_dropped() {
    let mut board = Board::empty();
    board.set_piece(sq("e2"), piece(PieceKind::Pawn, Force::White));
    let mut alt_game = AlteredGame::new(single_player(Force::White, A));
    alt_game.start_drag_piece(A, PieceDragStart::Board(sq("e2")), &board).unwrap();
    alt_game.invalidate_drag();
    assert_eq!(
        *alt_game.piece_drag_state(),
        Some(PieceDrag {
            board_idx: A,
            piece_kind: PieceKind::Pawn,
            piece_force: Force::White,
            source: PieceDragSource::Defunct,
        })
    );
    assert_eq!(alt_game.drag_piece_drop(sq("e4"), PieceKind::Queen), Err(PieceDragError::DragNoLongerPossible));
}

fn local_turns_sample() -> Vec<TurnRecordExpanded> {
    vec![
        record(Force::White, A, Mode::Normal, moved("e2", "e4"), "0"),
        record(Force::White, A, Mode::Preturn, moved("e4", "e5"), "1"),
        record(Force::White, B, Mode::Normal, moved("d2", "d4"), "2"),
        record(Force::White, A, Mode::Preturn, moved("g1", "f3"), "3"),
    ]
}

#[test]
fn local_turn_checks() {
    let turns = local_turns_sample();
    assert_eq!(num_preturns_on_board(&turns, A), 2);
    assert_eq!(num_preturns_on_board(&turns, B), 0);
    let mut alt_game = AlteredGame::new(single_player(Force::White, A));
    assert_eq!(alt_game.check_local_turn(B, &turns, 1), Err(TurnError::NotPlayer));
    assert_eq!(alt_game.check_local_turn(A, &turns, 2), Err(TurnError::PreturnLimitReached));
    assert_eq!(alt_game.check_local_turn(A, &turns, 3), Ok(envoy(Force::White, A)));
    alt_game.wayback_to_turn(A, Some("0".to_owned()), &turns);
    assert_eq!(alt_game.check_local_turn(A, &turns, 3), Err(TurnError::WaybackIsActive));
    let observer = AlteredGame::new(BughouseParticipant::Observer);
    assert_eq!(observer.check_local_turn(A, &turns, 3), Err(TurnError::NotPlayer));
}

#[test]
fn cancel_preturn_removes_the_last_turn_on_the_board() {
    let mut board = Board::empty();
    board.set_piece(sq("d4"), piece(PieceKind::Pawn, Force::White));
    let mut alt_game = AlteredGame::new(single_player(Force::White, A));
    let mut turns = local_turns_sample();
    assert!(alt_game.cancel_preturn(A, &mut turns));
    assert_eq!(indices(&turns), vec!["0", "1", "2"]);
    assert!(alt_game.cancel_preturn(A, &mut turns));
    assert_eq!(indices(&turns), vec!["0", "2"]);
    assert!(!alt_game.cancel_preturn(A, &mut turns));
    assert!(!alt_game.cancel_preturn(B, &mut turns));
    assert_eq!(indices(&turns), vec!["0", "2"]);
    // Any drag is aborted.
    let mut alt_game = AlteredGame::new(BughouseParticipant::Player(BughousePlayer::DoublePlayer(Team::Red)));
    alt_game.start_drag_piece(B, PieceDragStart::Board(sq("d4")), &board).ok();
    alt_game.cancel_preturn(A, &mut turns);
    assert_eq!(*alt_game.piece_drag_state(), None);
}

#[test]
fn invalid_local_turns_are_cut_per_board() {
    let mut turns = local_turns_sample();
    // The preturn "1" on board A fails: "3" on the same board goes too; board B is kept.
    discard_invalid_local_turns(&mut turns, &vec![true, false, true, true]);
    assert_eq!(indices(&turns), vec!["0", "2"]);
    let mut turns = local_turns_sample();
    discard_invalid_local_turns(&mut turns, &vec![true, true, true, true]);
    assert_eq!(indices(&turns), vec!["0", "1", "2", "3"]);
}

#[test]
fn remote_turn_of_a_finished_game_resets_local_changes() {
    let mut board = Board::empty();
    board.set_piece(sq("e2"), piece(PieceKind::Pawn, Force::White));
    let mut alt_game = AlteredGame::new(single_player(Force::White, A));
    alt_game.start_drag_piece(A, PieceDragStart::Board(sq("e2")), &board).unwrap();
    let mut turns = local_turns_sample();
    alt_game.take_remote_turn(&mut turns, envoy(Force::White, A), true, true);
    assert_eq!(indices(&turns), vec!["1", "2", "3"]);
    assert!(alt_game.piece_drag_state().is_some());
    alt_game.take_remote_turn(&mut turns, envoy(Force::Black, A), false, false);
    assert!(turns.is_empty());
    assert_eq!(*alt_game.piece_drag_state(), None);
}

#[test]
fn drag_is_settled_against_the_local_position() {
    let mut board = Board::empty();
    board.set_piece(sq("e2"), piece(PieceKind::Pawn, Force::White));
    let mut alt_game = AlteredGame::new(single_player(Force::White, A));
    alt_game.start_drag_piece(A, PieceDragStart::Board(sq("e2")), &board).unwrap();
    // The piece is still there: the drag stays.
    let mut shown = PerBoard { a: board.clone(), b: Board::empty() };
    alt_game.settle_drag(&mut shown);
    assert_eq!(alt_game.piece_drag_state().as_ref().unwrap().source, PieceDragSource::Board(sq("e2")));
    // The piece was captured: the drag is defunct.
    let mut shown = PerBoard { a: Board::empty(), b: Board::empty() };
    alt_game.settle_drag(&mut shown);
    assert_eq!(alt_game.piece_drag_state().as_ref().unwrap().source, PieceDragSource::Defunct);
}
