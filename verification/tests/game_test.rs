use bughouse_chess::coord::{Coord, SubjectiveRow};
use bughouse_chess::force::Force;
use bughouse_chess::game::{
    get_bughouse_force, BughouseBoard, BughouseEnvoy, BughouseParticipant, BughousePlayer, Team,
};
use bughouse_chess::piece::{PieceKind, PieceMovement};

#[test]
fn teams_play_opposite_sides_on_the_two_boards() {
    assert_eq!(get_bughouse_force(Team::Red, BughouseBoard::A), Force::White);
    assert_eq!(get_bughouse_force(Team::Red, BughouseBoard::B), Force::Black);
    assert_eq!(get_bughouse_force(Team::Blue, BughouseBoard::A), Force::Black);
    assert_eq!(get_bughouse_force(Team::Blue, BughouseBoard::B), Force::White);
    for team in [Team::Red, Team::Blue] {
        for board_idx in [BughouseBoard::A, BughouseBoard::B] {
            let envoy = BughouseEnvoy { board_idx, force: get_bughouse_force(team, board_idx) };
            assert_eq!(envoy.team(), team);
        }
    }
}

#[test]
fn participants_and_envoys() {
    let envoy = BughouseEnvoy { board_idx: BughouseBoard::B, force: Force::White };
    let single = BughouseParticipant::Player(BughousePlayer::SinglePlayer(envoy));
    assert_eq!(single.envoy_for(BughouseBoard::B), Some(envoy));
    assert_eq!(single.envoy_for(BughouseBoard::A), None);
    assert!(single.plays_for(envoy));
    let double = BughouseParticipant::Player(BughousePlayer::DoublePlayer(Team::Blue));
    assert_eq!(double.envoy_for(BughouseBoard::A), Some(BughouseEnvoy { board_idx: BughouseBoard::A, force: Force::Black }));
    assert!(double.plays_for(envoy));
    assert!(!double.plays_for(BughouseEnvoy { board_idx: BughouseBoard::A, force: Force::White }));
    assert_eq!(BughouseParticipant::Observer.envoy_for(BughouseBoard::A), None);
    assert!(!BughouseParticipant::Observer.plays_for(envoy));
}

#[test]
fn movements_are_well_shaped() {
    for kind in [
        PieceKind::Pawn,
        PieceKind::Knight,
        PieceKind::Bishop,
        PieceKind::Rook,
        PieceKind::Queen,
        PieceKind::King,
    ] {
        for m in kind.movements() {
            match *m {
                PieceMovement::Leap { shift } => assert!(shift.0 <= shift.1),
                PieceMovement::Ride { shift, max_leaps } => {
                    assert!(shift.0 <= shift.1);
                    assert!(max_leaps.map_or(true, |n| n >= 2));
                }
                PieceMovement::LikePawn => {}
            }
        }
    }
}

#[test]
fn coordinates_and_subjective_rows() {
    assert_eq!(Coord::new(8, 0), None);
    assert_eq!(Coord::new(0, -1), None);
    assert_eq!(Coord::new(3, 4).unwrap().index(), 28);
    let back_rank = SubjectiveRow::from_one_based(1).unwrap();
    assert_eq!(back_rank.to_row(Force::White), 0);
    assert_eq!(back_rank.to_row(Force::Black), 7);
    assert_eq!(SubjectiveRow::from_one_based(0), None);
    assert_eq!(SubjectiveRow::from_one_based(9), None);
}
