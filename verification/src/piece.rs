use vstd::prelude::*;

use crate::force::Force;
use crate::util::as_single_char;

verus! {

/// How a piece moves: a single leap, a repeated leap in one direction (a ride), or the
/// pawn's special movement. `shift` is given with the smaller component first.
#[derive(Clone, Copy, PartialEq, Eq, Debug)]
pub enum PieceMovement {
    Leap { shift: (u8, u8) },
    /// `max_leaps`, when present, is at least 2: a single leap is a `Leap`.
    Ride { shift: (u8, u8), max_leaps: Option<u8> },
    LikePawn,
}

#[derive(Clone, Copy, PartialEq, Eq, Hash, Debug, Structural)]
pub enum PieceKind {
    Pawn,
    Knight,
    Bishop,
    Rook,
    Queen,
    King,
}

#[derive(Clone, Copy, PartialEq, Eq, Debug, Structural)]
pub enum PieceOrigin {
    Innate,
    Promoted,
    Dropped,
}

#[derive(Clone, Copy, PartialEq, Eq, Debug, Structural)]
pub struct PieceOnBoard {
    pub kind: PieceKind,
    pub origin: PieceOrigin,
    pub force: Force,
}

#[derive(Clone, Copy, PartialEq, Eq, Hash, Debug, Structural)]
pub enum CastleDirection {
    ASide,
    HSide,
}

/// The part of a piece that matters when positions are compared for repetition.
#[derive(Clone, Copy, PartialEq, Eq, Hash, Debug, Structural)]
pub struct PieceForRepetitionDraw {
    pub kind: PieceKind,
    pub force: Force,
}

impl PieceOnBoard {
    pub fn new(kind: PieceKind, origin: PieceOrigin, force: Force) -> (r: PieceOnBoard)
        ensures
            r == (PieceOnBoard { kind, origin, force }),
    {
        PieceOnBoard { kind, origin, force }
    }
}

/// The movements of each kind of piece.
pub open spec fn spec_movements(kind: PieceKind) -> Seq<PieceMovement> {
    match kind {
        PieceKind::Pawn => seq![PieceMovement::LikePawn],
        PieceKind::Knight => seq![PieceMovement::Leap { shift: (1, 2) }],
        PieceKind::Bishop => seq![PieceMovement::Ride { shift: (1, 1), max_leaps: None }],
        PieceKind::Rook => seq![PieceMovement::Ride { shift: (0, 1), max_leaps: None }],
        PieceKind::Queen => seq![
            PieceMovement::Ride { shift: (1, 1), max_leaps: None },
            PieceMovement::Ride { shift: (0, 1), max_leaps: None },
        ],
        PieceKind::King => seq![
            PieceMovement::Leap { shift: (1, 1) },
            PieceMovement::Leap { shift: (0, 1) },
        ],
    }
}

/// A movement is well-shaped when its shift lists the smaller component first and a
/// bounded ride allows at least two leaps.
pub open spec fn movement_well_shaped(m: PieceMovement) -> bool {
    match m {
        PieceMovement::Leap { shift } => shift.0 <= shift.1,
        PieceMovement::Ride { shift, max_leaps } => {
            &&& shift.0 <= shift.1
            &&& (max_leaps matches Some(n) ==> n >= 2)
        },
        PieceMovement::LikePawn => true,
    }
}

/// The letter naming each kind of piece in algebraic notation.
pub open spec fn spec_full_algebraic(kind: PieceKind) -> char {
    match kind {
        PieceKind::Pawn => 'P',
        PieceKind::Knight => 'N',
        PieceKind::Bishop => 'B',
        PieceKind::Rook => 'R',
        PieceKind::Queen => 'Q',
        PieceKind::King => 'K',
    }
}

/// The kind of piece a letter names, if any.
pub open spec fn spec_from_algebraic_char(notation: char) -> Option<PieceKind> {
    if notation == 'P' {
        Some(PieceKind::Pawn)
    } else if notation == 'N' {
        Some(PieceKind::Knight)
    } else if notation == 'B' {
        Some(PieceKind::Bishop)
    } else if notation == 'R' {
        Some(PieceKind::Rook)
    } else if notation == 'Q' {
        Some(PieceKind::Queen)
    } else if notation == 'K' {
        Some(PieceKind::King)
    } else {
        None
    }
}

/// The piece name as written in a move: empty for a pawn, the letter otherwise.
pub open spec fn spec_algebraic_for_move(kind: PieceKind) -> Seq<char> {
    if kind == PieceKind::Pawn {
        Seq::empty()
    } else {
        seq![spec_full_algebraic(kind)]
    }
}

/// Reading a piece name: exactly one character, which must name a piece.
pub open spec fn spec_from_algebraic(notation: Seq<char>) -> Option<PieceKind> {
    if notation.len() == 1 {
        spec_from_algebraic_char(notation[0])
    } else {
        None
    }
}

pub open spec fn spec_pictogram(kind: PieceKind, force: Force) -> char {
    match (force, kind) {
        (Force::White, PieceKind::Pawn) => '♙',
        (Force::White, PieceKind::Knight) => '♘',
        (Force::White, PieceKind::Bishop) => '♗',
        (Force::White, PieceKind::Rook) => '♖',
        (Force::White, PieceKind::Queen) => '♕',
        (Force::White, PieceKind::King) => '♔',
        (Force::Black, PieceKind::Pawn) => '♟',
        (Force::Black, PieceKind::Knight) => '♞',
        (Force::Black, PieceKind::Bishop) => '♝',
        (Force::Black, PieceKind::Rook) => '♜',
        (Force::Black, PieceKind::Queen) => '♛',
        (Force::Black, PieceKind::King) => '♚',
    }
}

/// `char::to_string`: a string holding exactly the given character.
#[verifier::external_body]
fn char_to_string(c: char) -> (r: String)
    ensures
        r@ == seq![c],
{
    c.to_string()
}

impl PieceKind {
    pub fn movements(self) -> (r: &'static [PieceMovement])
        ensures
            r@ == spec_movements(self),
    {
        let r: &'static [PieceMovement] = match self {
            PieceKind::Pawn => &[PieceMovement::LikePawn],
            PieceKind::Knight => &[PieceMovement::Leap { shift: (1, 2) }],
            PieceKind::Bishop => &[PieceMovement::Ride { shift: (1, 1), max_leaps: None }],
            PieceKind::Rook => &[PieceMovement::Ride { shift: (0, 1), max_leaps: None }],
            PieceKind::Queen => &[
                PieceMovement::Ride { shift: (1, 1), max_leaps: None },
                PieceMovement::Ride { shift: (0, 1), max_leaps: None },
            ],
            PieceKind::King => &[
                PieceMovement::Leap { shift: (1, 1) },
                PieceMovement::Leap { shift: (0, 1) },
            ],
        };
        assert(r@ =~= spec_movements(self));
        r
    }

    /// The letter of the piece, including 'P' for a pawn. Moves in algebraic notation
    /// omit the pawn letter: use `to_algebraic_for_move` for them.
    pub fn to_full_algebraic(self) -> (r: char)
        ensures
            r == spec_full_algebraic(self),
    {
        match self {
            PieceKind::Pawn => 'P',
            PieceKind::Knight => 'N',
            PieceKind::Bishop => 'B',
            PieceKind::Rook => 'R',
            PieceKind::Queen => 'Q',
            PieceKind::King => 'K',
        }
    }

    pub fn from_algebraic_char(notation: char) -> (r: Option<Self>)
        ensures
            r == spec_from_algebraic_char(notation),
    {
        match notation {
            'P' => Some(PieceKind::Pawn),
            'N' => Some(PieceKind::Knight),
            'B' => Some(PieceKind::Bishop),
            'R' => Some(PieceKind::Rook),
            'Q' => Some(PieceKind::Queen),
            'K' => Some(PieceKind::King),
            _ => None,
        }
    }

    pub fn to_algebraic_for_move(self) -> (r: String)
        ensures
            r@ == spec_algebraic_for_move(self),
    {
        if self == PieceKind::Pawn {
            String::new()
        } else {
            char_to_string(self.to_full_algebraic())
        }
    }

    pub fn from_algebraic(notation: &str) -> (r: Option<Self>)
        ensures
            r == spec_from_algebraic(notation@),
    {
        match as_single_char(notation) {
            Some(c) => Self::from_algebraic_char(c),
            None => None,
        }
    }
}

pub fn piece_to_pictogram(piece_kind: PieceKind, force: Force) -> (r: char)
    ensures
        r == spec_pictogram(piece_kind, force),
{
    match (force, piece_kind) {
        (Force::White, PieceKind::Pawn) => '♙',
        (Force::White, PieceKind::Knight) => '♘',
        (Force::White, PieceKind::Bishop) => '♗',
        (Force::White, PieceKind::Rook) => '♖',
        (Force::White, PieceKind::Queen) => '♕',
        (Force::White, PieceKind::King) => '♔',
        (Force::Black, PieceKind::Pawn) => '♟',
        (Force::Black, PieceKind::Knight) => '♞',
        (Force::Black, PieceKind::Bishop) => '♝',
        (Force::Black, PieceKind::Rook) => '♜',
        (Force::Black, PieceKind::Queen) => '♛',
        (Force::Black, PieceKind::King) => '♚',
    }
}

/// Every piece movement lists the smaller shift component first, and a bounded ride
/// allows at least two leaps.
pub proof fn lemma_movements_well_shaped(kind: PieceKind)
    ensures
        forall|i: int|
            0 <= i < spec_movements(kind).len() ==> movement_well_shaped(
                #[trigger] spec_movements(kind)[i],
            ),
{
}

/// Reading back the letter of a piece gives the same piece, and a letter that names a
/// piece is that piece's letter.
pub proof fn lemma_algebraic_char_round_trip(kind: PieceKind, notation: char)
    ensures
        spec_from_algebraic_char(spec_full_algebraic(kind)) == Some(kind),
        spec_from_algebraic_char(notation) == Some(kind) ==> spec_full_algebraic(kind)
            == notation,
{
}

/// The name of a piece in a move reads back as that piece, except for the pawn, whose
/// name is empty.
pub proof fn lemma_algebraic_for_move_round_trip(kind: PieceKind)
    ensures
        kind == PieceKind::Pawn ==> spec_algebraic_for_move(kind).len() == 0,
        kind != PieceKind::Pawn ==> spec_from_algebraic(spec_algebraic_for_move(kind))
            == Some(kind),
{
}

/// Different pieces (by kind or by side) have different pictograms.
pub proof fn lemma_pictograms_distinct(k1: PieceKind, f1: Force, k2: PieceKind, f2: Force)
    requires
        k1 != k2 || f1 != f2,
    ensures
        spec_pictogram(k1, f1) != spec_pictogram(k2, f2),
{
}

} // verus!
