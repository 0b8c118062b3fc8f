use bughouse_chess::force::Force;
use bughouse_chess::piece::{piece_to_pictogram, PieceKind, PieceMovement};

#[test]
fn movements_of_each_piece() {
    assert_eq!(PieceKind::Pawn.movements(), &[PieceMovement::LikePawn]);
    assert_eq!(PieceKind::Knight.movements(), &[PieceMovement::Leap { shift: (1, 2) }]);
    assert_eq!(
        PieceKind::Queen.movements(),
        &[
            PieceMovement::Ride { shift: (1, 1), max_leaps: None },
            PieceMovement::Ride { shift: (0, 1), max_leaps: None },
        ]
    );
    assert_eq!(
        PieceKind::King.movements(),
        &[PieceMovement::Leap { shift: (1, 1) }, PieceMovement::Leap { shift: (0, 1) }]
    );
}

#[test]
fn algebraic_names() {
    assert_eq!(PieceKind::Pawn.to_algebraic_for_move(), "");
    assert_eq!(PieceKind::Queen.to_algebraic_for_move(), "Q");
    assert_eq!(PieceKind::Knight.to_full_algebraic(), 'N');
    assert_eq!(PieceKind::Pawn.to_full_algebraic(), 'P');
    assert_eq!(PieceKind::from_algebraic("N"), Some(PieceKind::Knight));
    assert_eq!(PieceKind::from_algebraic("P"), Some(PieceKind::Pawn));
    assert_eq!(PieceKind::from_algebraic("X"), None);
    assert_eq!(PieceKind::from_algebraic("NN"), None);
    assert_eq!(PieceKind::from_algebraic(""), None);
    assert_eq!(PieceKind::from_algebraic_char('k'), None);
}

#[test]
fn algebraic_round_trip() {
    for kind in [
        PieceKind::Knight,
        PieceKind::Bishop,
        PieceKind::Rook,
        PieceKind::Queen,
        PieceKind::King,
    ] {
        assert_eq!(PieceKind::from_algebraic(&kind.to_algebraic_for_move()), Some(kind));
    }
    assert_eq!(PieceKind::from_algebraic_char(PieceKind::Pawn.to_full_algebraic()), Some(PieceKind::Pawn));
}

#[test]
fn pictograms() {
    assert_eq!(piece_to_pictogram(PieceKind::King, Force::White), '♔');
    assert_eq!(piece_to_pictogram(PieceKind::Pawn, Force::Black), '♟');
    assert_eq!(piece_to_pictogram(PieceKind::Rook, Force::Black), '♜');
}
