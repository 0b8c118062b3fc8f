// The client side of an online bughouse game: the state that local user actions change
// before the server confirms them (dragging a piece, looking at a historical position),
// and the highlights drawn for recent turns and preturns.
//
// The server is trusted, the user is not: no user action, however bogus, makes these
// functions fail other than by returning an error.

use vstd::prelude::*;

use itertools::Itertools;

use crate::board::Board;
use crate::coord::{spec_subjective_to_row, Coord, SubjectiveRow};
use crate::force::Force;
use crate::game::{
    spec_envoy_for, spec_player_team, spec_plays_for, BughouseBoard, BughouseEnvoy, BughouseParticipant,
    BughousePlayer, PerBoard, Team,
};
use crate::piece::{CastleDirection, PieceKind};
use crate::util::str_eq;
use crate::turn::{
    str_ge, str_lt, Turn, TurnDrop, TurnExpanded, TurnInput, TurnMode, TurnMove,
    TurnError, TurnRecordExpanded,
};

verus! {

/// Where a drag starts: a piece on the board or a piece kind in the player's reserve.
#[derive(Clone, Copy, PartialEq, Eq, Debug, Structural)]
pub enum PieceDragStart {
    Board(Coord),
    Reserve(PieceKind),
}

#[derive(Clone, Copy, PartialEq, Eq, Debug, Structural)]
pub enum PieceDragError {
    DragForbidden,
    DragAlreadyStarted,
    NoDragInProgress,
    DragNoLongerPossible,
    PieceNotFound,
    Cancelled,
}

#[derive(Clone, Copy, PartialEq, Eq, Debug, Structural)]
pub enum PieceDragSource {
    /// The dragged piece was captured by the opponent or depended on a cancelled preturn.
    Defunct,
    Board(Coord),
    Reserve,
}

#[derive(Clone, Copy, PartialEq, Eq, Debug, Structural)]
pub struct PieceDrag {
    pub board_idx: BughouseBoard,
    pub piece_kind: PieceKind,
    pub piece_force: Force,
    pub source: PieceDragSource,
}

#[derive(Clone, Copy, PartialEq, Eq, Hash, Debug, Structural)]
pub enum TurnHighlightLayer {
    BelowFog,
    AboveFog,
}

#[derive(Clone, Copy, PartialEq, Eq, Hash, Debug, Structural)]
pub enum TurnHighlightFamily {
    Preturn,
    LatestTurn,
}

#[derive(Clone, Copy, PartialEq, Eq, Hash, Debug, Structural)]
pub enum TurnHighlightItem {
    MoveFrom,
    MoveTo,
    Drop,
    Capture,
}

#[derive(Clone, Copy, PartialEq, Eq, Hash, Debug, Structural)]
pub struct TurnHighlight {
    pub board_idx: BughouseBoard,
    pub coord: Coord,
    pub layer: TurnHighlightLayer,
    pub family: TurnHighlightFamily,
    pub item: TurnHighlightItem,
}

// ---------------------------------------------------------------------------------------
// Turn highlights

/// Rank of a highlight: tuples compare lexicographically and a higher rank overshadows a
/// lower one on the same square. Above-fog beats below-fog; preturns beat the latest turn;
/// a capture beats a move's destination (they coincide except for en passant), which
/// beats a drop, which beats a move's origin.
pub open spec fn spec_z_index(h: TurnHighlight) -> (u8, u8, u8) {
    (
        match h.layer {
            TurnHighlightLayer::AboveFog => 1u8,
            TurnHighlightLayer::BelowFog => 0u8,
        },
        match h.family {
            TurnHighlightFamily::Preturn => 1u8,
            TurnHighlightFamily::LatestTurn => 0u8,
        },
        match h.item {
            TurnHighlightItem::Capture => 3u8,
            TurnHighlightItem::MoveTo => 2u8,
            TurnHighlightItem::Drop => 1u8,
            TurnHighlightItem::MoveFrom => 0u8,
        },
    )
}

/// Lexicographic `a <= b` on rank tuples.
pub open spec fn z_index_le(a: (u8, u8, u8), b: (u8, u8, u8)) -> bool {
    ||| a.0 < b.0
    ||| a.0 == b.0 && a.1 < b.1
    ||| a.0 == b.0 && a.1 == b.1 && a.2 <= b.2
}

pub open spec fn same_square(a: TurnHighlight, b: TurnHighlight) -> bool {
    a.board_idx == b.board_idx && a.coord == b.coord
}

/// `kept` holds one highlight per square of `all`: one of the highest-ranked highlights
/// that `all` has on that square.
pub open spec fn one_max_per_square(kept: Seq<TurnHighlight>, all: Seq<TurnHighlight>) -> bool {
    &&& forall|i: int| 0 <= i < kept.len() ==> all.contains(#[trigger] kept[i])
    &&& forall|i: int, j: int|
        0 <= i < kept.len() && 0 <= j < kept.len() && i != j ==> !same_square(
            #[trigger] kept[i],
            #[trigger] kept[j],
        )
    &&& forall|h: TurnHighlight|
        #[trigger] all.contains(h) ==> exists|i: int|
            0 <= i < kept.len() && same_square(#[trigger] kept[i], h) && z_index_le(
                spec_z_index(h),
                spec_z_index(kept[i]),
            )
}

pub fn turn_highlight_z_index(highlight: &TurnHighlight) -> (r: (u8, u8, u8))
    ensures
        r == spec_z_index(*highlight),
{
    (
        match highlight.layer {
            TurnHighlightLayer::AboveFog => 1,
            TurnHighlightLayer::BelowFog => 0,
        },
        match highlight.family {
            TurnHighlightFamily::Preturn => 1,
            TurnHighlightFamily::LatestTurn => 0,
        },
        match highlight.item {
            TurnHighlightItem::Capture => 3,
            TurnHighlightItem::MoveTo => 2,
            TurnHighlightItem::Drop => 1,
            TurnHighlightItem::MoveFrom => 0,
        },
    )
}

/// Groups highlights by square and keeps the highest-ranked one of each group, with
/// itertools' `into_grouping_map_by` and `max_by_key`. The groups come out of a `HashMap`,
/// so the order of the result is left open.
#[verifier::external_body]
fn max_highlight_per_square(highlights: Vec<TurnHighlight>) -> (r: Vec<TurnHighlight>)
    ensures
        one_max_per_square(r@, highlights@),
{
    highlights
        .into_iter()
        .into_grouping_map_by(|h| (h.board_idx, h.coord))
        .max_by_key(|_, h| turn_highlight_z_index(h))
        .into_values()
        .collect()
}

/// The squares a turn touches, and how.
pub open spec fn spec_highlight_basis(turn: TurnExpanded) -> Seq<(TurnHighlightItem, Coord)> {
    (match turn.relocation {
        Some((from, to)) => seq![(TurnHighlightItem::MoveFrom, from), (TurnHighlightItem::MoveTo, to)],
        None => Seq::empty(),
    }) + (match turn.relocation_extra {
        Some((from, to)) => seq![(TurnHighlightItem::MoveFrom, from), (TurnHighlightItem::MoveTo, to)],
        None => Seq::empty(),
    }) + (match turn.drop {
        Some(to) => seq![(TurnHighlightItem::Drop, to)],
        None => Seq::empty(),
    }) + (match turn.capture {
        Some(capture) => seq![(TurnHighlightItem::Capture, capture.from)],
        None => Seq::empty(),
    })
}

pub fn get_turn_highlight_basis(turn_expanded: &TurnExpanded) -> (r: Vec<(TurnHighlightItem, Coord)>)
    ensures
        r@ == spec_highlight_basis(*turn_expanded),
{
    let mut highlights: Vec<(TurnHighlightItem, Coord)> = Vec::new();
    if let Some((from, to)) = turn_expanded.relocation {
        highlights.push((TurnHighlightItem::MoveFrom, from));
        highlights.push((TurnHighlightItem::MoveTo, to));
    }
    if let Some((from, to)) = turn_expanded.relocation_extra {
        highlights.push((TurnHighlightItem::MoveFrom, from));
        highlights.push((TurnHighlightItem::MoveTo, to));
    }
    if let Some(drop) = turn_expanded.drop {
        highlights.push((TurnHighlightItem::Drop, drop));
    }
    if let Some(capture) = turn_expanded.capture {
        highlights.push((TurnHighlightItem::Capture, capture.from));
    }
    assert(highlights@ =~= spec_highlight_basis(*turn_expanded));
    highlights
}

/// A highlight for one touched square. Visible squares are highlighted below the fog.
/// Under the fog only a capture is shown, above the fog: the captured piece was the
/// player's own, so its location is known to them.
pub open spec fn spec_highlight_for(
    family: TurnHighlightFamily,
    board_idx: BughouseBoard,
    item: TurnHighlightItem,
    coord: Coord,
    fog_of_war_area: Seq<Coord>,
) -> Option<TurnHighlight> {
    if fog_of_war_area.contains(coord) {
        if item == TurnHighlightItem::Capture {
            Some(
                TurnHighlight {
                    board_idx,
                    coord,
                    layer: TurnHighlightLayer::AboveFog,
                    family,
                    item,
                },
            )
        } else {
            None
        }
    } else {
        Some(TurnHighlight { board_idx, coord, layer: TurnHighlightLayer::BelowFog, family, item })
    }
}

pub open spec fn spec_highlights_from_basis(
    family: TurnHighlightFamily,
    board_idx: BughouseBoard,
    basis: Seq<(TurnHighlightItem, Coord)>,
    fog_of_war_area: Seq<Coord>,
) -> Seq<TurnHighlight>
    decreases basis.len(),
{
    if basis.len() == 0 {
        Seq::empty()
    } else {
        let prev = spec_highlights_from_basis(family, board_idx, basis.drop_last(), fog_of_war_area);
        match spec_highlight_for(family, board_idx, basis.last().0, basis.last().1, fog_of_war_area) {
            Some(h) => prev.push(h),
            None => prev,
        }
    }
}

pub open spec fn spec_turn_highlights(
    family: TurnHighlightFamily,
    board_idx: BughouseBoard,
    turn: TurnExpanded,
    fog_of_war_area: Seq<Coord>,
) -> Seq<TurnHighlight> {
    spec_highlights_from_basis(family, board_idx, spec_highlight_basis(turn), fog_of_war_area)
}

/// Whether a square is in a list of squares.
pub fn coords_contain(coords: &Vec<Coord>, coord: Coord) -> (r: bool)
    ensures
        r == coords@.contains(coord),
{
    let mut i: usize = 0;
    while i < coords.len()
        invariant
            i <= coords.len(),
            forall|j: int| 0 <= j < i ==> coords@[j] != coord,
        decreases coords.len() - i,
    {
        if coords[i] == coord {
            return true;
        }
        i = i + 1;
    }
    false
}

pub fn get_turn_highlights(
    family: TurnHighlightFamily,
    board_idx: BughouseBoard,
    turn: &TurnExpanded,
    fog_of_war_area: &Vec<Coord>,
) -> (r: Vec<TurnHighlight>)
    ensures
        r@ == spec_turn_highlights(family, board_idx, *turn, fog_of_war_area@),
{
    let basis = get_turn_highlight_basis(turn);
    let mut highlights: Vec<TurnHighlight> = Vec::new();
    let mut i: usize = 0;
    while i < basis.len()
        invariant
            i <= basis.len(),
            highlights@ == spec_highlights_from_basis(
                family,
                board_idx,
                basis@.take(i as int),
                fog_of_war_area@,
            ),
        decreases basis.len() - i,
    {
        let (item, coord) = basis[i];
        assert(basis@.take(i + 1).drop_last() =~= basis@.take(i as int));
        let mut layer = TurnHighlightLayer::BelowFog;
        let mut visible = true;
        if coords_contain(fog_of_war_area, coord) {
            if item == TurnHighlightItem::Capture {
                layer = TurnHighlightLayer::AboveFog;
            } else {
                visible = false;
            }
        }
        if visible {
            highlights.push(TurnHighlight { family, item, board_idx, coord, layer });
        }
        i = i + 1;
    }
    assert(basis@.take(basis.len() as int) =~= basis@);
    highlights
}

// ---------------------------------------------------------------------------------------
// Turn logs and historical positions

/// The turns made on one board, in order.
pub open spec fn spec_board_log(log: Seq<TurnRecordExpanded>, board_idx: BughouseBoard) -> Seq<
    TurnRecordExpanded,
>
    decreases log.len(),
{
    if log.len() == 0 {
        Seq::empty()
    } else {
        let prev = spec_board_log(log.drop_last(), board_idx);
        if log.last().envoy.board_idx == board_idx {
            prev.push(log.last())
        } else {
            prev
        }
    }
}

/// Some turn of `s` has an index at or after `turn_idx`.
pub open spec fn spec_reaches(s: Seq<TurnRecordExpanded>, turn_idx: Seq<char>) -> bool {
    exists|j: int| 0 <= j < s.len() && !str_lt(#[trigger] s[j].index@, turn_idx)
}

/// The turns up to and including the first one whose index is at or after `turn_idx`;
/// later turns with an earlier index (turns on the other board) are kept too.
pub open spec fn spec_cut_at(s: Seq<TurnRecordExpanded>, turn_idx: Seq<char>) -> Seq<
    TurnRecordExpanded,
>
    decreases s.len(),
{
    if s.len() == 0 {
        Seq::empty()
    } else {
        let prev = spec_cut_at(s.drop_last(), turn_idx);
        if !str_lt(s.last().index@, turn_idx) && spec_reaches(s.drop_last(), turn_idx) {
            prev
        } else {
            prev.push(s.last())
        }
    }
}

pub open spec fn spec_board_turn_log_modulo_wayback(
    log: Seq<TurnRecordExpanded>,
    board_idx: BughouseBoard,
    wayback_turn_idx: Option<Seq<char>>,
) -> Seq<TurnRecordExpanded> {
    match wayback_turn_idx {
        None => spec_board_log(log, board_idx),
        Some(w) => spec_cut_at(spec_board_log(log, board_idx), w),
    }
}

/// The turns made on a board, as seen from the historical position `wayback_turn_idx`
/// when one is viewed: the turn at that index is the last one.
pub fn board_turn_log_modulo_wayback(
    turn_log: &Vec<TurnRecordExpanded>,
    board_idx: BughouseBoard,
    wayback_turn_idx: Option<&str>,
) -> (r: Vec<TurnRecordExpanded>)
    ensures
        r@ == spec_board_turn_log_modulo_wayback(
            turn_log@,
            board_idx,
            match wayback_turn_idx {
                Some(w) => Some(w@),
                None => None,
            },
        ),
{
    let mut board_log: Vec<TurnRecordExpanded> = Vec::new();
    let mut i: usize = 0;
    while i < turn_log.len()
        invariant
            i <= turn_log.len(),
            board_log@ == spec_board_log(turn_log@.take(i as int), board_idx),
        decreases turn_log.len() - i,
    {
        assert(turn_log@.take(i + 1).drop_last() =~= turn_log@.take(i as int));
        if turn_log[i].envoy.board_idx == board_idx {
            board_log.push(turn_log[i].duplicate());
        }
        i = i + 1;
    }
    assert(turn_log@.take(turn_log.len() as int) =~= turn_log@);
    match wayback_turn_idx {
        None => board_log,
        Some(w) => {
            let mut kept: Vec<TurnRecordExpanded> = Vec::new();
            let mut found = false;
            let mut k: usize = 0;
            while k < board_log.len()
                invariant
                    k <= board_log.len(),
                    kept@ == spec_cut_at(board_log@.take(k as int), w@),
                    found == spec_reaches(board_log@.take(k as int), w@),
                decreases board_log.len() - k,
            {
                let ghost prefix = board_log@.take(k + 1);
                assert(prefix.drop_last() =~= board_log@.take(k as int));
                let at_or_after = str_ge(board_log[k].index(), w);
                if !(at_or_after && found) {
                    kept.push(board_log[k].duplicate());
                }
                proof {
                    if at_or_after {
                        assert(!str_lt(prefix[k as int].index@, w@));
                    }
                    if spec_reaches(prefix, w@) && !at_or_after {
                        let j = choose|j: int|
                            0 <= j < prefix.len() && !str_lt(#[trigger] prefix[j].index@, w@);
                        assert(board_log@.take(k as int)[j] == prefix[j]);
                    }
                }
                found = found || at_or_after;
                k = k + 1;
            }
            assert(board_log@.take(board_log.len() as int) =~= board_log@);
            kept
        },
    }
}


// ---------------------------------------------------------------------------------------
// Local interaction state

/// The state local user actions change in a bughouse game shown to a participant: the
/// historical position viewed on each board and the piece being dragged. The game itself
/// (the position confirmed by the server with the local turns applied) is held by the
/// caller, which hands the boards or the turn log to the methods that read them.
#[derive(Debug)]
pub struct AlteredGame {
    // All local actions are made on behalf of this participant.
    my_id: BughouseParticipant,
    // Index of the historical position viewed on each board, if any.
    wayback_turn_index: PerBoard<Option<String>>,
    // Drag & drop state when a turn is made by mouse or touch.
    piece_drag: Option<PieceDrag>,
}

/// A drag that starts on the board starts on a square of the board.
pub open spec fn drag_wf(drag: Option<PieceDrag>) -> bool {
    drag matches Some(d) ==> (d.source matches PieceDragSource::Board(c) ==> c.wf())
}

pub open spec fn option_view(s: Option<String>) -> Option<Seq<char>> {
    match s {
        Some(s) => Some(s@),
        None => None,
    }
}

/// What a drag started with `start` on `board` (a board of `board_idx`) would be, or why
/// it cannot start.
pub open spec fn spec_start_drag(
    my_id: BughouseParticipant,
    wayback_active: bool,
    drag_in_progress: bool,
    board_idx: BughouseBoard,
    start: PieceDragStart,
    board: Board,
) -> Result<PieceDrag, PieceDragError> {
    match spec_envoy_for(my_id, board_idx) {
        None => Err(PieceDragError::DragForbidden),
        Some(envoy) => if wayback_active {
            Err(PieceDragError::DragForbidden)
        } else if drag_in_progress {
            Err(PieceDragError::DragAlreadyStarted)
        } else {
            match start {
                PieceDragStart::Board(coord) => match board.spec_piece(coord) {
                    None => Err(PieceDragError::PieceNotFound),
                    Some(piece) => if piece.force != envoy.force {
                        Err(PieceDragError::DragForbidden)
                    } else {
                        Ok(
                            PieceDrag {
                                board_idx,
                                piece_kind: piece.kind,
                                piece_force: piece.force,
                                source: PieceDragSource::Board(coord),
                            },
                        )
                    },
                },
                PieceDragStart::Reserve(piece_kind) => if board.spec_reserve(
                    envoy.force,
                ).spec_count(piece_kind) == 0 {
                    Err(PieceDragError::PieceNotFound)
                } else {
                    Ok(
                        PieceDrag {
                            board_idx,
                            piece_kind,
                            piece_force: envoy.force,
                            source: PieceDragSource::Reserve,
                        },
                    )
                },
            }
        },
    }
}

/// The turn a drag dropped on `dest` makes. A king moved by two or more columns along its
/// back rank castles towards the side it moved to; a pawn that reaches the last row is
/// promoted to `promote_to`.
pub open spec fn spec_drag_drop(
    drag: Option<PieceDrag>,
    dest: Coord,
    promote_to: PieceKind,
) -> Result<TurnInput, PieceDragError> {
    match drag {
        None => Err(PieceDragError::NoDragInProgress),
        Some(d) => match d.source {
            PieceDragSource::Defunct => Err(PieceDragError::DragNoLongerPossible),
            PieceDragSource::Board(source) => if source == dest {
                Err(PieceDragError::Cancelled)
            } else {
                let d_col = dest.col - source.col;
                let first_row = spec_subjective_to_row(0, d.piece_force);
                let last_row = spec_subjective_to_row(7, d.piece_force);
                let is_castling = d.piece_kind == PieceKind::King && (d_col >= 2 || d_col <= -2)
                    && source.row == first_row && dest.row == first_row;
                let is_promotion = d.piece_kind == PieceKind::Pawn && dest.row == last_row;
                if is_castling {
                    Ok(
                        TurnInput::DragDrop(
                            Turn::Castle(
                                if d_col > 0 {
                                    CastleDirection::HSide
                                } else {
                                    CastleDirection::ASide
                                },
                            ),
                        ),
                    )
                } else {
                    Ok(
                        TurnInput::DragDrop(
                            Turn::Move(
                                TurnMove {
                                    from: source,
                                    to: dest,
                                    promote_to: if is_promotion {
                                        Some(promote_to)
                                    } else {
                                        None
                                    },
                                },
                            ),
                        ),
                    )
                }
            },
            PieceDragSource::Reserve => Ok(
                TurnInput::DragDrop(Turn::Drop(TurnDrop { piece_kind: d.piece_kind, to: dest })),
            ),
        },
    }
}

/// Whether the dragged piece can be lifted from the position: the piece is still where
/// the drag started, or the reserve still holds one.
pub open spec fn spec_apply_drag_succeeds(
    my_id: BughouseParticipant,
    drag: Option<PieceDrag>,
    board: Board,
) -> bool {
    match drag {
        None => true,
        Some(d) => match spec_envoy_for(my_id, d.board_idx) {
            None => false,
            Some(envoy) => match d.source {
                PieceDragSource::Defunct => true,
                PieceDragSource::Board(coord) => match board.spec_piece(coord) {
                    None => false,
                    Some(p) => p.force == d.piece_force && p.kind == d.piece_kind,
                },
                PieceDragSource::Reserve => board.spec_reserve(envoy.force).spec_count(
                    d.piece_kind,
                ) > 0,
            },
        },
    }
}

/// The index of the last turn made on a board.
pub open spec fn spec_last_board_turn_index(
    log: Seq<TurnRecordExpanded>,
    board_idx: BughouseBoard,
) -> Option<Seq<char>>
    decreases log.len(),
{
    if log.len() == 0 {
        None
    } else if log.last().envoy.board_idx == board_idx {
        Some(log.last().index@)
    } else {
        spec_last_board_turn_index(log.drop_last(), board_idx)
    }
}

impl AlteredGame {
    #[verifier::type_invariant]
    spec fn inv(self) -> bool {
        drag_wf(self.piece_drag)
    }

    pub closed spec fn spec_my_id(&self) -> BughouseParticipant {
        self.my_id
    }

    pub closed spec fn spec_wayback(&self, board_idx: BughouseBoard) -> Option<Seq<char>> {
        option_view(self.wayback_turn_index.spec_get(board_idx))
    }

    pub closed spec fn spec_piece_drag(&self) -> Option<PieceDrag> {
        self.piece_drag
    }

    pub fn new(my_id: BughouseParticipant) -> (r: AlteredGame)
        ensures
            r.spec_my_id() == my_id,
            r.spec_wayback(BughouseBoard::A) is None,
            r.spec_wayback(BughouseBoard::B) is None,
            r.spec_piece_drag() is None,
    {
        AlteredGame {
            my_id,
            wayback_turn_index: PerBoard { a: None, b: None },
            piece_drag: None,
        }
    }

    pub fn my_id(&self) -> (r: BughouseParticipant)
        ensures
            r == self.spec_my_id(),
    {
        self.my_id
    }

    pub fn wayback_turn_index(&self, board_idx: BughouseBoard) -> (r: Option<&str>)
        ensures
            match r {
                Some(s) => self.spec_wayback(board_idx) == Some(s@),
                None => self.spec_wayback(board_idx) is None,
            },
    {
        match self.wayback_turn_index.get(board_idx) {
            Some(s) => Some(s.as_str()),
            None => None,
        }
    }

    pub fn piece_drag_state(&self) -> (r: &Option<PieceDrag>)
        ensures
            *r == self.spec_piece_drag(),
    {
        &self.piece_drag
    }

    pub fn abort_drag_piece(&mut self)
        ensures
            final(self).spec_piece_drag() is None,
            final(self).spec_my_id() == old(self).spec_my_id(),
            forall|b: BughouseBoard| #[trigger] final(self).spec_wayback(b) == old(self).spec_wayback(b),
    {
        self.piece_drag = None;
    }

    /// Aborts the drag if it is on the given board.
    pub fn abort_drag_piece_on_board(&mut self, board_idx: BughouseBoard)
        ensures
            final(self).spec_piece_drag() == (match old(self).spec_piece_drag() {
                Some(d) => if d.board_idx == board_idx {
                    None
                } else {
                    Some(d)
                },
                None => None,
            }),
            final(self).spec_my_id() == old(self).spec_my_id(),
            forall|b: BughouseBoard| #[trigger] final(self).spec_wayback(b) == old(self).spec_wayback(b),
    {
        if let Some(drag) = self.piece_drag {
            if drag.board_idx == board_idx {
                self.piece_drag = None;
            }
        }
    }
}


impl AlteredGame {
    /// Starts dragging a piece of `board`, the position shown on board `board_idx`.
    pub fn start_drag_piece(
        &mut self,
        board_idx: BughouseBoard,
        start: PieceDragStart,
        board: &Board,
    ) -> (r: Result<(), PieceDragError>)
        requires
            board.wf(),
            start matches PieceDragStart::Board(c) ==> c.wf(),
        ensures
            ({
                let expected = spec_start_drag(
                    old(self).spec_my_id(),
                    old(self).spec_wayback(board_idx) is Some,
                    old(self).spec_piece_drag() is Some,
                    board_idx,
                    start,
                    *board,
                );
                match expected {
                    Ok(drag) => r is Ok && final(self).spec_piece_drag() == Some(drag),
                    Err(e) => r == Err::<(), PieceDragError>(e) && final(self).spec_piece_drag()
                        == old(self).spec_piece_drag(),
                }
            }),
            final(self).spec_my_id() == old(self).spec_my_id(),
            forall|b: BughouseBoard| #[trigger] final(self).spec_wayback(b) == old(self).spec_wayback(b),
    {
        let my_player_id = match self.my_id {
            BughouseParticipant::Player(p) => p,
            BughouseParticipant::Observer => {
                return Err(PieceDragError::DragForbidden);
            },
        };
        let my_envoy = match my_player_id.envoy_for(board_idx) {
            Some(e) => e,
            None => {
                return Err(PieceDragError::DragForbidden);
            },
        };
        if self.wayback_turn_index.get(board_idx).is_some() {
            return Err(PieceDragError::DragForbidden);
        }
        if self.piece_drag.is_some() {
            return Err(PieceDragError::DragAlreadyStarted);
        }
        let (piece_kind, piece_force, source) = match start {
            PieceDragStart::Board(coord) => {
                let piece = match board.piece_at(coord) {
                    Some(p) => p,
                    None => {
                        return Err(PieceDragError::PieceNotFound);
                    },
                };
                if !board.can_potentially_move_piece(my_envoy.force, piece.force) {
                    return Err(PieceDragError::DragForbidden);
                }
                (piece.kind, piece.force, PieceDragSource::Board(coord))
            },
            PieceDragStart::Reserve(piece_kind) => {
                if board.reserve(my_envoy.force).count(piece_kind) == 0 {
                    return Err(PieceDragError::PieceNotFound);
                }
                (piece_kind, my_envoy.force, PieceDragSource::Reserve)
            },
        };
        self.piece_drag = Some(PieceDrag { board_idx, piece_kind, piece_force, source });
        Ok(())
    }

    /// Ends the drag and returns the turn it makes; the caller then makes that turn.
    pub fn drag_piece_drop(&mut self, dest: Coord, promote_to: PieceKind) -> (r: Result<
        TurnInput,
        PieceDragError,
    >)
        ensures
            r == spec_drag_drop(old(self).spec_piece_drag(), dest, promote_to),
            final(self).spec_piece_drag() is None,
            final(self).spec_my_id() == old(self).spec_my_id(),
            forall|b: BughouseBoard| #[trigger] final(self).spec_wayback(b) == old(self).spec_wayback(b),
    {
        let drag = match self.piece_drag {
            Some(d) => d,
            None => {
                return Err(PieceDragError::NoDragInProgress);
            },
        };
        self.piece_drag = None;
        match drag.source {
            PieceDragSource::Defunct => Err(PieceDragError::DragNoLongerPossible),
            PieceDragSource::Board(source_coord) => {
                if source_coord == dest {
                    return Err(PieceDragError::Cancelled);
                }
                let d_col: i16 = (dest.col as i16) - (source_coord.col as i16);
                let first_row = SubjectiveRow { idx: 0 }.to_row(drag.piece_force);
                let last_row = SubjectiveRow { idx: 7 }.to_row(drag.piece_force);
                let is_castling = drag.piece_kind == PieceKind::King && (d_col >= 2 || d_col
                    <= -2) && (source_coord.row == first_row && dest.row == first_row);
                let is_promotion = drag.piece_kind == PieceKind::Pawn && dest.row == last_row;
                if is_castling {
                    let dir = if d_col > 0 {
                        CastleDirection::HSide
                    } else {
                        CastleDirection::ASide
                    };
                    Ok(TurnInput::DragDrop(Turn::Castle(dir)))
                } else {
                    Ok(
                        TurnInput::DragDrop(
                            Turn::Move(
                                TurnMove {
                                    from: source_coord,
                                    to: dest,
                                    promote_to: if is_promotion {
                                        Some(promote_to)
                                    } else {
                                        None
                                    },
                                },
                            ),
                        ),
                    )
                }
            },
            PieceDragSource::Reserve => Ok(
                TurnInput::DragDrop(
                    Turn::Drop(TurnDrop { piece_kind: drag.piece_kind, to: dest }),
                ),
            ),
        }
    }

    /// Lifts the dragged piece from the position shown on its board: removes it from its
    /// square or takes one from the reserve. Fails when the piece is no longer there.
    pub fn apply_drag(&self, boards: &mut PerBoard<Board>) -> (r: Result<(), ()>)
        requires
            old(boards).a.wf(),
            old(boards).b.wf(),
        ensures
            final(boards).a.wf(),
            final(boards).b.wf(),
            r is Ok <==> spec_apply_drag_succeeds(
                self.spec_my_id(),
                self.spec_piece_drag(),
                old(boards).spec_get(self.spec_piece_drag()->0.board_idx),
            ),
            self.spec_piece_drag() is None ==> *final(boards) == *old(boards),
            self.spec_piece_drag() matches Some(d) ==> final(boards).spec_get(
                d.board_idx.spec_other(),
            ) == old(boards).spec_get(d.board_idx.spec_other()),
            self.spec_piece_drag() matches Some(d) ==> ({
                let before = old(boards).spec_get(d.board_idx);
                let after = final(boards).spec_get(d.board_idx);
                match (d.source, spec_envoy_for(self.spec_my_id(), d.board_idx)) {
                    (PieceDragSource::Board(coord), Some(_)) => {
                        &&& after.spec_piece(coord) is None
                        &&& forall|c: Coord|
                            c.wf() && c != coord ==> #[trigger] after.spec_piece(c)
                                == before.spec_piece(c)
                        &&& forall|f: Force| #[trigger] after.spec_reserve(f) == before.spec_reserve(f)
                    },
                    (PieceDragSource::Reserve, Some(envoy)) => if r is Ok {
                        &&& after.spec_reserve(envoy.force).spec_count(d.piece_kind) == before.spec_reserve(
                            envoy.force,
                        ).spec_count(d.piece_kind) - 1
                        &&& forall|k: PieceKind|
                            k != d.piece_kind ==> #[trigger] after.spec_reserve(
                                envoy.force,
                            ).spec_count(k) == before.spec_reserve(envoy.force).spec_count(k)
                        &&& after.spec_reserve(envoy.force.spec_opponent()) == before.spec_reserve(
                            envoy.force.spec_opponent(),
                        )
                        &&& forall|c: Coord| c.wf() ==> #[trigger] after.spec_piece(c) == before.spec_piece(c)
                    } else {
                        after == before
                    },
                    _ => after == before,
                }
            }),
    {
        proof {
            use_type_invariant(self);
        }
        let drag = match self.piece_drag {
            Some(d) => d,
            None => {
                return Ok(());
            },
        };
        let envoy = match self.my_id.envoy_for(drag.board_idx) {
            Some(e) => e,
            None => {
                return Err(());
            },
        };
        match drag.board_idx {
            BughouseBoard::A => lift_dragged_piece(drag, envoy, &mut boards.a),
            BughouseBoard::B => lift_dragged_piece(drag, envoy, &mut boards.b),
        }
    }

    /// Shows the historical position at `turn_idx` on a board, or the current position
    /// when `turn_idx` is `None` or is the index of the last turn made on that board
    /// (`local_turn_log` is the log of the game with local turns). Aborts a drag on that
    /// board.
    pub fn wayback_to_turn(
        &mut self,
        board_idx: BughouseBoard,
        turn_idx: Option<String>,
        local_turn_log: &Vec<TurnRecordExpanded>,
    )
        ensures
            final(self).spec_wayback(board_idx) == (if option_view(turn_idx)
                == spec_last_board_turn_index(local_turn_log@, board_idx) {
                None
            } else {
                option_view(turn_idx)
            }),
            final(self).spec_wayback(board_idx.spec_other()) == old(self).spec_wayback(
                board_idx.spec_other(),
            ),
            final(self).spec_piece_drag() == (match old(self).spec_piece_drag() {
                Some(d) => if d.board_idx == board_idx {
                    None
                } else {
                    Some(d)
                },
                None => None,
            }),
            final(self).spec_my_id() == old(self).spec_my_id(),
            (exists|k: int|
                #![trigger local_turn_log@[k]]
                0 <= k < local_turn_log@.len() && local_turn_log@[k].envoy.board_idx == board_idx
                    && option_view(turn_idx) == Some(local_turn_log@[k].index@) && forall|j: int|
                    k < j < local_turn_log@.len() ==> (#[trigger] local_turn_log@[j]).envoy.board_idx
                        != board_idx) ==> final(self).spec_wayback(board_idx) is None,
    {
        proof {
            lemma_wayback_target_is_last(local_turn_log@, board_idx, option_view(turn_idx));
        }
        self.abort_drag_piece_on_board(board_idx);
        proof {
            use_type_invariant(&*self);
            assert(self.spec_wayback(board_idx.spec_other()) == old(self).spec_wayback(
                board_idx.spec_other(),
            ));
        }
        let mut last_turn_idx: Option<&str> = None;
        let mut i: usize = local_turn_log.len();
        assert(local_turn_log@.take(i as int) =~= local_turn_log@);
        while i > 0 && last_turn_idx.is_none()
            invariant
                i <= local_turn_log.len(),
                last_turn_idx is None ==> spec_last_board_turn_index(local_turn_log@, board_idx)
                    == spec_last_board_turn_index(local_turn_log@.take(i as int), board_idx),
                last_turn_idx matches Some(l) ==> spec_last_board_turn_index(
                    local_turn_log@,
                    board_idx,
                ) == Some(l@),
            decreases i,
        {
            assert(local_turn_log@.take(i as int).drop_last() =~= local_turn_log@.take(i - 1));
            if local_turn_log[i - 1].envoy.board_idx == board_idx {
                last_turn_idx = Some(local_turn_log[i - 1].index());
            }
            i = i - 1;
        }
        assert(local_turn_log@.take(0) =~= Seq::<TurnRecordExpanded>::empty());
        let same = match (&turn_idx, last_turn_idx) {
            (Some(t), Some(l)) => str_eq(t.as_str(), l),
            (None, None) => true,
            _ => false,
        };
        let new_idx = if same {
            None
        } else {
            turn_idx
        };
        let ghost other = self.wayback_turn_index.spec_get(board_idx.spec_other());
        match board_idx {
            BughouseBoard::A => self.wayback_turn_index.a = new_idx,
            BughouseBoard::B => self.wayback_turn_index.b = new_idx,
        }
        assert(self.wayback_turn_index.spec_get(board_idx.spec_other()) == other);
    }
}

/// Removes the dragged piece from its square, or one piece of its kind from the reserve
/// of `envoy`'s side.
fn lift_dragged_piece(drag: PieceDrag, envoy: BughouseEnvoy, board: &mut Board) -> (r: Result<(), ()>)
    requires
        old(board).wf(),
        drag.source matches PieceDragSource::Board(c) ==> c.wf(),
    ensures
        final(board).wf(),
        r is Ok <==> match drag.source {
            PieceDragSource::Defunct => true,
            PieceDragSource::Board(coord) => match old(board).spec_piece(coord) {
                None => false,
                Some(p) => p.force == drag.piece_force && p.kind == drag.piece_kind,
            },
            PieceDragSource::Reserve => old(board).spec_reserve(envoy.force).spec_count(
                drag.piece_kind,
            ) > 0,
        },
        match drag.source {
            PieceDragSource::Board(coord) => {
                &&& final(board).spec_piece(coord) is None
                &&& forall|c: Coord|
                    c.wf() && c != coord ==> #[trigger] final(board).spec_piece(c) == old(
                        board,
                    ).spec_piece(c)
                &&& forall|f: Force| #[trigger] final(board).spec_reserve(f) == old(board).spec_reserve(f)
            },
            PieceDragSource::Reserve => if r is Ok {
                &&& final(board).spec_reserve(envoy.force).spec_count(drag.piece_kind) == old(
                    board,
                ).spec_reserve(envoy.force).spec_count(drag.piece_kind) - 1
                &&& forall|k: PieceKind|
                    k != drag.piece_kind ==> #[trigger] final(board).spec_reserve(
                        envoy.force,
                    ).spec_count(k) == old(board).spec_reserve(envoy.force).spec_count(k)
                &&& final(board).spec_reserve(envoy.force.spec_opponent()) == old(
                    board,
                ).spec_reserve(envoy.force.spec_opponent())
                &&& forall|c: Coord| c.wf() ==> #[trigger] final(board).spec_piece(c) == old(board).spec_piece(c)
            } else {
                *final(board) == *old(board)
            },
            PieceDragSource::Defunct => *final(board) == *old(board),
        },
{
    match drag.source {
        PieceDragSource::Defunct => Ok(()),
        PieceDragSource::Board(coord) => {
            let taken = board.piece_at(coord);
            board.set_piece(coord, None);
            match taken {
                None => Err(()),
                Some(piece) => if piece.force == drag.piece_force && piece.kind == drag.piece_kind {
                    Ok(())
                } else {
                    Err(())
                },
            }
        },
        PieceDragSource::Reserve => {
            let mut reserve = board.reserve(envoy.force);
            let n = reserve.count(drag.piece_kind);
            if n == 0 {
                return Err(());
            }
            reserve.set_count(drag.piece_kind, n - 1);
            board.set_reserve(envoy.force, reserve);
            Ok(())
        },
    }
}


/// Highlights of the latest megaturn: the turns at the end of `s` made by `envoy`, latest
/// first. Normally this is one turn; in duck chess it is the piece and the duck.
pub open spec fn spec_latest_megaturn_highlights(
    s: Seq<TurnRecordExpanded>,
    envoy: BughouseEnvoy,
    board_idx: BughouseBoard,
    fog_cover_area: Seq<Coord>,
) -> Seq<TurnHighlight>
    decreases s.len(),
{
    if s.len() == 0 || s.last().envoy != envoy {
        Seq::empty()
    } else {
        spec_turn_highlights(
            TurnHighlightFamily::LatestTurn,
            board_idx,
            s.last().turn_expanded,
            fog_cover_area,
        ) + spec_latest_megaturn_highlights(s.drop_last(), envoy, board_idx, fog_cover_area)
    }
}

/// Highlights of every preturn in `s`, in order.
pub open spec fn spec_preturn_highlights(
    s: Seq<TurnRecordExpanded>,
    board_idx: BughouseBoard,
    fog_cover_area: Seq<Coord>,
) -> Seq<TurnHighlight>
    decreases s.len(),
{
    if s.len() == 0 {
        Seq::empty()
    } else {
        spec_preturn_highlights(s.drop_last(), board_idx, fog_cover_area) + if s.last().mode
            == TurnMode::Preturn {
            spec_turn_highlights(
                TurnHighlightFamily::Preturn,
                board_idx,
                s.last().turn_expanded,
                fog_cover_area,
            )
        } else {
            Seq::empty()
        }
    }
}

/// All highlights of one board before overlapping ones are resolved: the latest megaturn,
/// unless the participant made it themselves and is looking at the current position;
/// then every preturn.
pub open spec fn spec_board_highlights(
    my_id: BughouseParticipant,
    log: Seq<TurnRecordExpanded>,
    board_idx: BughouseBoard,
    wayback_turn_idx: Option<Seq<char>>,
    fog_cover_area: Seq<Coord>,
) -> Seq<TurnHighlight> {
    let turn_log = spec_board_turn_log_modulo_wayback(log, board_idx, wayback_turn_idx);
    let latest = if turn_log.len() > 0 && (!spec_plays_for(my_id, turn_log.last().envoy)
        || wayback_turn_idx is Some) {
        spec_latest_megaturn_highlights(turn_log, turn_log.last().envoy, board_idx, fog_cover_area)
    } else {
        Seq::empty()
    };
    latest + spec_preturn_highlights(turn_log, board_idx, fog_cover_area)
}

pub open spec fn spec_fog_cover(
    see_through_fog: bool,
    fog_of_war_area: PerBoard<Vec<Coord>>,
    board_idx: BughouseBoard,
) -> Seq<Coord> {
    if see_through_fog {
        Seq::empty()
    } else {
        fog_of_war_area.spec_get(board_idx)@
    }
}

fn board_turn_highlights(
    my_id: BughouseParticipant,
    log: &Vec<TurnRecordExpanded>,
    board_idx: BughouseBoard,
    wayback_turn_idx: Option<&str>,
    fog_cover_area: &Vec<Coord>,
) -> (r: Vec<TurnHighlight>)
    ensures
        r@ == spec_board_highlights(
            my_id,
            log@,
            board_idx,
            match wayback_turn_idx {
                Some(w) => Some(w@),
                None => None,
            },
            fog_cover_area@,
        ),
{
    let turn_log = board_turn_log_modulo_wayback(log, board_idx, wayback_turn_idx);
    let ghost tl = turn_log@;
    let mut highlights: Vec<TurnHighlight> = Vec::new();
    let n = turn_log.len();
    if n > 0 {
        let latest_envoy = turn_log[n - 1].envoy;
        if !my_id.plays_for(latest_envoy) || wayback_turn_idx.is_some() {
            let mut i: usize = n;
            assert(tl.take(n as int) =~= tl);
            while i > 0 && turn_log[i - 1].envoy == latest_envoy
                invariant
                    n == tl.len(),
                    tl == turn_log@,
                    i <= n,
                    highlights@ + spec_latest_megaturn_highlights(
                        tl.take(i as int),
                        latest_envoy,
                        board_idx,
                        fog_cover_area@,
                    ) == spec_latest_megaturn_highlights(
                        tl,
                        latest_envoy,
                        board_idx,
                        fog_cover_area@,
                    ),
                decreases i,
            {
                assert(tl.take(i as int).drop_last() =~= tl.take(i - 1));
                let mut h = get_turn_highlights(
                    TurnHighlightFamily::LatestTurn,
                    board_idx,
                    &turn_log[i - 1].turn_expanded,
                    fog_cover_area,
                );
                let ghost before = highlights@;
                highlights.append(&mut h);
                proof {
                    let rest = spec_latest_megaturn_highlights(
                        tl.take(i - 1),
                        latest_envoy,
                        board_idx,
                        fog_cover_area@,
                    );
                    let hh = spec_turn_highlights(
                        TurnHighlightFamily::LatestTurn,
                        board_idx,
                        tl[i - 1].turn_expanded,
                        fog_cover_area@,
                    );
                    assert(before + (hh + rest) =~= (before + hh) + rest);
                }
                i = i - 1;
            }
            proof {
                if i == 0 {
                    assert(tl.take(0) =~= Seq::<TurnRecordExpanded>::empty());
                }
                assert(highlights@ + Seq::<TurnHighlight>::empty() =~= highlights@);
            }
        }
    }
    let ghost latest = highlights@;
    let mut k: usize = 0;
    while k < n
        invariant
            n == tl.len(),
            tl == turn_log@,
            k <= n,
            highlights@ == latest + spec_preturn_highlights(
                tl.take(k as int),
                board_idx,
                fog_cover_area@,
            ),
        decreases n - k,
    {
        assert(tl.take(k + 1).drop_last() =~= tl.take(k as int));
        if turn_log[k].mode == TurnMode::Preturn {
            let mut h = get_turn_highlights(
                TurnHighlightFamily::Preturn,
                board_idx,
                &turn_log[k].turn_expanded,
                fog_cover_area,
            );
            highlights.append(&mut h);
        }
        proof {
            let prev = spec_preturn_highlights(tl.take(k as int), board_idx, fog_cover_area@);
            let cur = spec_preturn_highlights(tl.take(k + 1), board_idx, fog_cover_area@);
            if tl[k as int].mode != TurnMode::Preturn {
                assert(cur =~= prev + Seq::<TurnHighlight>::empty());
                assert(prev + Seq::<TurnHighlight>::empty() =~= prev);
            } else {
                assert(latest + cur =~= (latest + prev) + spec_turn_highlights(
                    TurnHighlightFamily::Preturn,
                    board_idx,
                    tl[k as int].turn_expanded,
                    fog_cover_area@,
                ));
            }
        }
        k = k + 1;
    }
    assert(tl.take(n as int) =~= tl);
    proof {
        if n == 0 {
            assert(latest =~= Seq::<TurnHighlight>::empty());
        }
    }
    highlights
}

impl AlteredGame {
    /// Highlights of recent turns and preturns on both boards, at most one per square:
    /// where highlights overlap the highest-ranked one is kept. `local_turn_log` is the log
    /// of the game with local turns; `fog_of_war_area` holds, per board, the squares
    /// covered by fog; `see_through_fog` is set once the game is over.
    pub fn turn_highlights(
        &self,
        local_turn_log: &Vec<TurnRecordExpanded>,
        see_through_fog: bool,
        fog_of_war_area: &PerBoard<Vec<Coord>>,
    ) -> (r: Vec<TurnHighlight>)
        ensures
            one_max_per_square(
                r@,
                spec_all_turn_highlights(*self, local_turn_log@, see_through_fog, *fog_of_war_area),
            ),
    {
        let empty_area: Vec<Coord> = Vec::new();
        let mut highlights = board_turn_highlights(
            self.my_id,
            local_turn_log,
            BughouseBoard::A,
            self.wayback_turn_index(BughouseBoard::A),
            if see_through_fog {
                &empty_area
            } else {
                &fog_of_war_area.a
            },
        );
        let mut highlights_b = board_turn_highlights(
            self.my_id,
            local_turn_log,
            BughouseBoard::B,
            self.wayback_turn_index(BughouseBoard::B),
            if see_through_fog {
                &empty_area
            } else {
                &fog_of_war_area.b
            },
        );
        highlights.append(&mut highlights_b);
        max_highlight_per_square(highlights)
    }
}


// ---------------------------------------------------------------------------------------
// Laws

/// A drag that was just started can be shown: the dragged piece can be lifted from the
/// position it was started on.
pub proof fn lemma_started_drag_can_be_lifted(
    my_id: BughouseParticipant,
    board_idx: BughouseBoard,
    start: PieceDragStart,
    board: Board,
)
    requires
        spec_start_drag(my_id, false, false, board_idx, start, board) is Ok,
    ensures
        spec_apply_drag_succeeds(
            my_id,
            Some(spec_start_drag(my_id, false, false, board_idx, start, board)->Ok_0),
            board,
        ),
{
}

/// Dropping a piece back on the square it was dragged from makes no turn.
pub proof fn lemma_drop_on_source_cancels(drag: PieceDrag, promote_to: PieceKind)
    requires
        drag.source matches PieceDragSource::Board(_),
    ensures
        spec_drag_drop(Some(drag), drag.source->Board_0, promote_to) == Err::<
            TurnInput,
            PieceDragError,
        >(PieceDragError::Cancelled),
{
}

/// A piece dragged from the reserve is dropped: the turn drops a piece of the dragged kind
/// on the destination square.
pub proof fn lemma_reserve_drag_drops(
    my_id: BughouseParticipant,
    board_idx: BughouseBoard,
    piece_kind: PieceKind,
    board: Board,
    dest: Coord,
    promote_to: PieceKind,
)
    requires
        spec_start_drag(
            my_id,
            false,
            false,
            board_idx,
            PieceDragStart::Reserve(piece_kind),
            board,
        ) is Ok,
    ensures
        spec_drag_drop(
            Some(
                spec_start_drag(
                    my_id,
                    false,
                    false,
                    board_idx,
                    PieceDragStart::Reserve(piece_kind),
                    board,
                )->Ok_0,
            ),
            dest,
            promote_to,
        ) == Ok::<TurnInput, PieceDragError>(
            TurnInput::DragDrop(Turn::Drop(TurnDrop { piece_kind, to: dest })),
        ),
{
}

/// Only one's own pieces, on a board one plays, can be dragged, and only while looking at
/// the current position with no other drag in progress.
pub proof fn lemma_drag_only_own_pieces(
    my_id: BughouseParticipant,
    wayback_active: bool,
    drag_in_progress: bool,
    board_idx: BughouseBoard,
    start: PieceDragStart,
    board: Board,
)
    requires
        spec_start_drag(my_id, wayback_active, drag_in_progress, board_idx, start, board) is Ok,
    ensures
        !wayback_active,
        !drag_in_progress,
        spec_envoy_for(my_id, board_idx) matches Some(envoy) && spec_start_drag(
            my_id,
            wayback_active,
            drag_in_progress,
            board_idx,
            start,
            board,
        )->Ok_0.piece_force == envoy.force,
{
}

/// A highlight above the fog outranks any highlight below it, whatever their families and
/// items.
pub proof fn lemma_above_fog_outranks(a: TurnHighlight, b: TurnHighlight)
    requires
        a.layer == TurnHighlightLayer::AboveFog,
        b.layer == TurnHighlightLayer::BelowFog,
    ensures
        z_index_le(spec_z_index(b), spec_z_index(a)),
        !z_index_le(spec_z_index(a), spec_z_index(b)),
{
}

/// Ranks are totally ordered, and two highlights of one square with equal ranks are equal.
pub proof fn lemma_z_index_total(a: TurnHighlight, b: TurnHighlight)
    ensures
        z_index_le(spec_z_index(a), spec_z_index(b)) || z_index_le(
            spec_z_index(b),
            spec_z_index(a),
        ),
        same_square(a, b) && spec_z_index(a) == spec_z_index(b) ==> a == b,
{
}

/// Turn highlights reveal nothing under the fog: every highlight of a square covered by
/// fog is a capture drawn above the fog, and every other highlight is drawn below it.
pub proof fn lemma_highlights_respect_fog(
    family: TurnHighlightFamily,
    board_idx: BughouseBoard,
    basis: Seq<(TurnHighlightItem, Coord)>,
    fog_of_war_area: Seq<Coord>,
)
    ensures
        forall|i: int|
            0 <= i < spec_highlights_from_basis(family, board_idx, basis, fog_of_war_area).len()
                ==> {
                let h = #[trigger] spec_highlights_from_basis(
                    family,
                    board_idx,
                    basis,
                    fog_of_war_area,
                )[i];
                &&& h.family == family
                &&& h.board_idx == board_idx
                &&& fog_of_war_area.contains(h.coord) ==> h.item == TurnHighlightItem::Capture
                    && h.layer == TurnHighlightLayer::AboveFog
                &&& !fog_of_war_area.contains(h.coord) ==> h.layer
                    == TurnHighlightLayer::BelowFog
            },
    decreases basis.len(),
{
    if basis.len() > 0 {
        lemma_highlights_respect_fog(family, board_idx, basis.drop_last(), fog_of_war_area);
    }
}

/// The turn log of a board holds only turns made on that board.
pub proof fn lemma_board_log_on_board(log: Seq<TurnRecordExpanded>, board_idx: BughouseBoard)
    ensures
        forall|i: int|
            0 <= i < spec_board_log(log, board_idx).len() ==> (#[trigger] spec_board_log(
                log,
                board_idx,
            )[i]).envoy.board_idx == board_idx,
        spec_board_log(log, board_idx).len() <= log.len(),
    decreases log.len(),
{
    if log.len() > 0 {
        lemma_board_log_on_board(log.drop_last(), board_idx);
    }
}

/// Looking back at a historical position keeps exactly one turn at or after its index: the
/// first such turn. Turns before it are all kept.
pub proof fn lemma_cut_at_keeps_one_turn_from_wayback(
    s: Seq<TurnRecordExpanded>,
    turn_idx: Seq<char>,
)
    ensures
        spec_reaches(s, turn_idx) == spec_reaches(spec_cut_at(s, turn_idx), turn_idx),
        forall|i: int, j: int|
            0 <= i < spec_cut_at(s, turn_idx).len() && 0 <= j < spec_cut_at(s, turn_idx).len()
                && !str_lt(#[trigger] spec_cut_at(s, turn_idx)[i].index@, turn_idx) && !str_lt(
                #[trigger] spec_cut_at(s, turn_idx)[j].index@,
                turn_idx,
            ) ==> i == j,
        !spec_reaches(s, turn_idx) ==> spec_cut_at(s, turn_idx) == s,
    decreases s.len(),
{
    if s.len() > 0 {
        let p = s.drop_last();
        let last = s.last();
        lemma_cut_at_keeps_one_turn_from_wayback(p, turn_idx);
        let cp = spec_cut_at(p, turn_idx);
        let c = spec_cut_at(s, turn_idx);
        assert(s =~= p.push(last));
        lemma_reaches_push(p, last, turn_idx);
        if !str_lt(last.index@, turn_idx) && spec_reaches(p, turn_idx) {
            assert(c == cp);
        } else {
            assert(c == cp.push(last));
            lemma_reaches_push(cp, last, turn_idx);
        }
    }
}

/// A sequence reaches an index when its prefix does or its last turn does.
proof fn lemma_reaches_push(p: Seq<TurnRecordExpanded>, x: TurnRecordExpanded, turn_idx: Seq<char>)
    ensures
        spec_reaches(p.push(x), turn_idx) == (spec_reaches(p, turn_idx) || !str_lt(
            x.index@,
            turn_idx,
        )),
{
    let q = p.push(x);
    if spec_reaches(p, turn_idx) {
        let j = choose|j: int| 0 <= j < p.len() && !str_lt(#[trigger] p[j].index@, turn_idx);
        assert(q[j] == p[j]);
    }
    if !str_lt(x.index@, turn_idx) {
        assert(q[p.len() as int] == x);
    }
    if spec_reaches(q, turn_idx) {
        let j = choose|j: int| 0 <= j < q.len() && !str_lt(#[trigger] q[j].index@, turn_idx);
        if j < p.len() {
            assert(q[j] == p[j]);
        }
    }
}


/// In fog-of-war chess, whether a square of board `board_idx` is hidden from the
/// participant: it is outside the fog-free area and, unless a historical position is
/// shown, holds no piece of the participant's side (preturn pieces show themselves).
/// Observers and ordinary chess see everything.
pub open spec fn spec_fogged(
    my_id: BughouseParticipant,
    wayback_active: bool,
    board_idx: BughouseBoard,
    fog_of_war: bool,
    fog_free_area: Seq<Coord>,
    board_with_preturns: Board,
    coord: Coord,
) -> bool {
    &&& fog_of_war
    &&& my_id matches BughouseParticipant::Player(player)
    &&& !fog_free_area.contains(coord)
    &&& wayback_active || !holds_piece_of(
        board_with_preturns,
        coord,
        crate::game::spec_bughouse_force(spec_player_team(player), board_idx),
    )
}

pub open spec fn holds_piece_of(board: Board, coord: Coord, force: Force) -> bool {
    match board.spec_piece(coord) {
        Some(piece) => piece.force == force,
        None => false,
    }
}

impl AlteredGame {
    /// The squares of board `board_idx` covered by fog. `fog_of_war` tells whether the game
    /// is played with fog of war; `fog_free_area` is what the participant's pieces see in
    /// the position shown without preturns; `board_with_preturns` is that board with the
    /// preturns made.
    pub fn fog_of_war_area(
        &self,
        board_idx: BughouseBoard,
        fog_of_war: bool,
        fog_free_area: &Vec<Coord>,
        board_with_preturns: &Board,
    ) -> (r: Vec<Coord>)
        requires
            board_with_preturns.wf(),
        ensures
            forall|c: Coord|
                #[trigger] r@.contains(c) <==> c.wf() && spec_fogged(
                    self.spec_my_id(),
                    self.spec_wayback(board_idx) is Some,
                    board_idx,
                    fog_of_war,
                    fog_free_area@,
                    *board_with_preturns,
                    c,
                ),
            r@.no_duplicates(),
    {
        let mut area: Vec<Coord> = Vec::new();
        if !fog_of_war {
            assert(area@ =~= Seq::<Coord>::empty());
            return area;
        }
        let my_player_id = match self.my_id {
            BughouseParticipant::Player(p) => p,
            BughouseParticipant::Observer => {
                return area;
            },
        };
        let force = crate::game::get_bughouse_force(my_player_id.team(), board_idx);
        let wayback_active = self.wayback_turn_index.get(board_idx).is_some();
        let mut row: i8 = 0;
        while row < 8
            invariant
                0 <= row <= 8,
                board_with_preturns.wf(),
                force == crate::game::spec_bughouse_force(spec_player_team(my_player_id), board_idx),
                self.my_id == BughouseParticipant::Player(my_player_id),
                fog_of_war,
                wayback_active == (self.spec_wayback(board_idx) is Some),
                forall|c: Coord| #[trigger]
                    area@.contains(c) <==> (c.wf() && spec_fogged(
                    self.spec_my_id(),
                    wayback_active,
                    board_idx,
                    fog_of_war,
                    fog_free_area@,
                    *board_with_preturns,
                    c,
                )) && c.row < row,
                area@.no_duplicates(),
            decreases 8 - row,
        {
            let mut col: i8 = 0;
            while col < 8
                invariant
                    0 <= row < 8,
                    0 <= col <= 8,
                    board_with_preturns.wf(),
                    force == crate::game::spec_bughouse_force(spec_player_team(my_player_id), board_idx),
                    self.my_id == BughouseParticipant::Player(my_player_id),
                    fog_of_war,
                    wayback_active == (self.spec_wayback(board_idx) is Some),
                    forall|c: Coord| #[trigger]
                        area@.contains(c) <==> (c.wf() && spec_fogged(
                    self.spec_my_id(),
                    wayback_active,
                    board_idx,
                    fog_of_war,
                    fog_free_area@,
                    *board_with_preturns,
                    c,
                )) && (c.row < row || (c.row == row
                            && c.col < col)),
                    area@.no_duplicates(),
                decreases 8 - col,
            {
                let coord = Coord { row, col };
                let mut visible = coords_contain(fog_free_area, coord);
                if !visible && !wayback_active {
                    if let Some(piece) = board_with_preturns.piece_at(coord) {
                        if piece.force == force {
                            visible = true;
                        }
                    }
                }
                let ghost before = area@;
                if !visible {
                    area.push(coord);
                }
                proof {
                    let fog_here = coord.wf() && spec_fogged(
                        self.spec_my_id(),
                        wayback_active,
                        board_idx,
                        fog_of_war,
                        fog_free_area@,
                        *board_with_preturns,
                        coord,
                    );
                    assert(fog_here == !visible);
                    assert(!before.contains(coord));
                    if !visible {
                        assert(area@ == before.push(coord));
                    } else {
                        assert(area@ == before);
                    }
                    assert forall|c: Coord| #[trigger]
                        area@.contains(c) <==> (c.wf() && spec_fogged(
                            self.spec_my_id(),
                            wayback_active,
                            board_idx,
                            fog_of_war,
                            fog_free_area@,
                            *board_with_preturns,
                            c,
                        )) && (c.row < row || (c.row == row && c.col < col + 1)) by {
                        if !visible {
                            if area@.contains(c) && c != coord {
                                let k = choose|k: int| 0 <= k < area@.len() && area@[k] == c;
                                assert(before[k] == c);
                            }
                            if before.contains(c) {
                                let k = choose|k: int| 0 <= k < before.len() && before[k] == c;
                                assert(area@[k] == c);
                            }
                            if c == coord {
                                assert(area@[before.len() as int] == coord);
                            }
                        }
                    }
                    if !visible {
                        assert forall|i: int, j: int|
                            0 <= i < area@.len() && 0 <= j < area@.len() && i != j implies area@[i]
                            != area@[j] by {
                            if i == before.len() {
                                assert(area@[j] == before[j]);
                                assert(before.contains(before[j]));
                            } else if j == before.len() {
                                assert(area@[i] == before[i]);
                                assert(before.contains(before[i]));
                            } else {
                                assert(area@[i] == before[i]);
                                assert(area@[j] == before[j]);
                            }
                        }
                    }
                }
                col = col + 1;
            }
            row = row + 1;
        }
        area
    }
}

// ---------------------------------------------------------------------------------------
// Local turns after a turn from the server

/// The position of the first turn made by `envoy`, if any.
pub open spec fn spec_first_turn_by(turns: Seq<TurnRecordExpanded>, envoy: BughouseEnvoy) -> Option<int>
    decreases turns.len(),
{
    if turns.len() == 0 {
        None
    } else {
        match spec_first_turn_by(turns.drop_last(), envoy) {
            Some(k) => Some(k),
            None => if turns.last().envoy == envoy {
                Some(turns.len() - 1)
            } else {
                None
            },
        }
    }
}

/// The turns not made by `envoy`, in order.
pub open spec fn spec_turns_not_by(turns: Seq<TurnRecordExpanded>, envoy: BughouseEnvoy) -> Seq<
    TurnRecordExpanded,
>
    decreases turns.len(),
{
    if turns.len() == 0 {
        Seq::empty()
    } else {
        let prev = spec_turns_not_by(turns.drop_last(), envoy);
        if turns.last().envoy == envoy {
            prev
        } else {
            prev.push(turns.last())
        }
    }
}

/// The local turns once the server has confirmed a turn by `envoy`. With no local turn by
/// `envoy` nothing changes. If the first local turn by `envoy` is the confirmed one
/// (`first_own_matches`), that local copy is dropped; otherwise the history it was based
/// on has changed and every local turn by `envoy` is dropped.
pub open spec fn spec_reconcile_local_turns(
    turns: Seq<TurnRecordExpanded>,
    envoy: BughouseEnvoy,
    first_own_matches: bool,
) -> Seq<TurnRecordExpanded> {
    match spec_first_turn_by(turns, envoy) {
        None => turns,
        Some(k) => if first_own_matches {
            turns.remove(k)
        } else {
            spec_turns_not_by(turns, envoy)
        },
    }
}

proof fn lemma_first_turn_by_prefix(turns: Seq<TurnRecordExpanded>, envoy: BughouseEnvoy, n: int)
    requires
        0 <= n <= turns.len(),
        spec_first_turn_by(turns.take(n), envoy) is Some,
    ensures
        spec_first_turn_by(turns, envoy) == spec_first_turn_by(turns.take(n), envoy),
    decreases turns.len(),
{
    if n < turns.len() {
        assert(turns.drop_last().take(n) =~= turns.take(n));
        lemma_first_turn_by_prefix(turns.drop_last(), envoy, n);
    } else {
        assert(turns.take(n) =~= turns);
    }
}

/// The first turn by an envoy is theirs, and no turn before it is.
pub proof fn lemma_first_turn_by(turns: Seq<TurnRecordExpanded>, envoy: BughouseEnvoy)
    ensures
        spec_first_turn_by(turns, envoy) matches Some(k) ==> {
            &&& 0 <= k < turns.len()
            &&& turns[k].envoy == envoy
            &&& forall|j: int| 0 <= j < k ==> (#[trigger] turns[j]).envoy != envoy
        },
        spec_first_turn_by(turns, envoy) is None ==> forall|j: int|
            0 <= j < turns.len() ==> (#[trigger] turns[j]).envoy != envoy,
    decreases turns.len(),
{
    if turns.len() > 0 {
        lemma_first_turn_by(turns.drop_last(), envoy);
        assert forall|j: int| 0 <= j < turns.len() - 1 implies #[trigger] turns[j] == turns.drop_last()[j] by {}
    }
}

/// Dropping the turns of an envoy keeps every other turn and leaves none of theirs; a list
/// with no turn of theirs is kept whole.
pub proof fn lemma_turns_not_by(turns: Seq<TurnRecordExpanded>, envoy: BughouseEnvoy)
    ensures
        forall|j: int|
            0 <= j < spec_turns_not_by(turns, envoy).len() ==> (#[trigger] spec_turns_not_by(
                turns,
                envoy,
            )[j]).envoy != envoy,
        (forall|j: int| 0 <= j < turns.len() ==> (#[trigger] turns[j]).envoy != envoy)
            ==> spec_turns_not_by(turns, envoy) == turns,
    decreases turns.len(),
{
    if turns.len() > 0 {
        lemma_turns_not_by(turns.drop_last(), envoy);
        if forall|j: int| 0 <= j < turns.len() ==> (#[trigger] turns[j]).envoy != envoy {
            assert forall|j: int| 0 <= j < turns.drop_last().len() implies (
            #[trigger] turns.drop_last()[j]).envoy != envoy by {
                assert(turns.drop_last()[j] == turns[j]);
            }
            assert(turns[turns.len() - 1].envoy != envoy);
            assert(turns.drop_last().push(turns.last()) =~= turns);
        }
    }
}

fn turns_not_by(turns: &Vec<TurnRecordExpanded>, envoy: BughouseEnvoy) -> (r: Vec<TurnRecordExpanded>)
    ensures
        r@ == spec_turns_not_by(turns@, envoy),
{
    let mut result: Vec<TurnRecordExpanded> = Vec::new();
    let mut i: usize = 0;
    while i < turns.len()
        invariant
            i <= turns.len(),
            result@ == spec_turns_not_by(turns@.take(i as int), envoy),
        decreases turns.len() - i,
    {
        assert(turns@.take(i + 1).drop_last() =~= turns@.take(i as int));
        if turns[i].envoy != envoy {
            result.push(turns[i].duplicate());
        }
        i = i + 1;
    }
    assert(turns@.take(turns.len() as int) =~= turns@);
    result
}

/// Brings the local turns up to date with a turn by `envoy` that the server confirmed.
/// `first_own_matches` tells whether the first local turn by `envoy`, replayed on the
/// previously confirmed game, is the confirmed turn.
pub fn reconcile_local_turns(
    local_turns: &mut Vec<TurnRecordExpanded>,
    envoy: BughouseEnvoy,
    first_own_matches: bool,
)
    ensures
        final(local_turns)@ == spec_reconcile_local_turns(
            old(local_turns)@,
            envoy,
            first_own_matches,
        ),
{
    let mut first: Option<usize> = None;
    let mut i: usize = 0;
    while i < local_turns.len() && first.is_none()
        invariant
            i <= local_turns.len(),
            first is None ==> spec_first_turn_by(local_turns@.take(i as int), envoy) is None,
            first matches Some(k) ==> spec_first_turn_by(local_turns@, envoy) == Some(k as int),
        decreases local_turns.len() - i,
    {
        assert(local_turns@.take(i + 1).drop_last() =~= local_turns@.take(i as int));
        if local_turns[i].envoy == envoy {
            proof {
                lemma_first_turn_by_prefix(local_turns@, envoy, i + 1);
            }
            first = Some(i);
        }
        i = i + 1;
    }
    if first.is_none() {
        assert(local_turns@.take(local_turns.len() as int) =~= local_turns@);
    }
    match first {
        None => {},
        Some(k) => {
            if first_own_matches {
                proof {
                    lemma_first_turn_by(local_turns@, envoy);
                }
                local_turns.remove(k);
            } else {
                let kept = turns_not_by(local_turns, envoy);
                *local_turns = kept;
            }
        },
    }
}

impl AlteredGame {
    /// Marks the drag in progress as no longer possible: its piece was captured by the
    /// opponent, or it depended on a preturn that was cancelled.
    pub fn invalidate_drag(&mut self)
        requires
            old(self).spec_piece_drag() is Some,
        ensures
            final(self).spec_piece_drag() == Some(spec_defunct(old(self).spec_piece_drag()->0)),
            final(self).spec_my_id() == old(self).spec_my_id(),
            forall|b: BughouseBoard| #[trigger] final(self).spec_wayback(b) == old(self).spec_wayback(b),
    {
        if let Some(drag) = self.piece_drag {
            self.piece_drag = Some(
                PieceDrag {
                    board_idx: drag.board_idx,
                    piece_kind: drag.piece_kind,
                    piece_force: drag.piece_force,
                    source: PieceDragSource::Defunct,
                },
            );
        }
    }
}

/// The same drag, no longer possible.
pub open spec fn spec_defunct(drag: PieceDrag) -> PieceDrag {
    PieceDrag { source: PieceDragSource::Defunct, ..drag }
}

// ---------------------------------------------------------------------------------------
// Local turns and preturns

/// The number of preturns queued on a board.
pub open spec fn spec_num_preturns_on_board(
    turns: Seq<TurnRecordExpanded>,
    board_idx: BughouseBoard,
) -> nat
    decreases turns.len(),
{
    if turns.len() == 0 {
        0
    } else {
        spec_num_preturns_on_board(turns.drop_last(), board_idx) + if turns.last().envoy.board_idx
            == board_idx && turns.last().mode == TurnMode::Preturn {
            1nat
        } else {
            0nat
        }
    }
}

/// The position of the last turn on a board, if any.
pub open spec fn spec_last_turn_on_board(
    turns: Seq<TurnRecordExpanded>,
    board_idx: BughouseBoard,
) -> Option<int>
    decreases turns.len(),
{
    if turns.len() == 0 {
        None
    } else if turns.last().envoy.board_idx == board_idx {
        Some(turns.len() - 1)
    } else {
        spec_last_turn_on_board(turns.drop_last(), board_idx)
    }
}

/// The checks made on a local turn before the game is asked whether it is legal, in order:
/// the participant plays on the board, no historical position is shown there, and fewer
/// than `max_preturns` preturns are queued there. On success, the side making the turn.
pub open spec fn spec_check_local_turn(
    my_id: BughouseParticipant,
    board_idx: BughouseBoard,
    wayback_active: bool,
    num_preturns: nat,
    max_preturns: nat,
) -> Result<BughouseEnvoy, TurnError> {
    match spec_envoy_for(my_id, board_idx) {
        None => Err(TurnError::NotPlayer),
        Some(envoy) => if wayback_active {
            Err(TurnError::WaybackIsActive)
        } else if num_preturns >= max_preturns {
            Err(TurnError::PreturnLimitReached)
        } else {
            Ok(envoy)
        },
    }
}

/// The number of preturns queued on a board.
pub fn num_preturns_on_board(turns: &Vec<TurnRecordExpanded>, board_idx: BughouseBoard) -> (r: usize)
    ensures
        r == spec_num_preturns_on_board(turns@, board_idx),
{
    let mut count: usize = 0;
    let mut i: usize = 0;
    while i < turns.len()
        invariant
            i <= turns.len(),
            count <= i,
            count == spec_num_preturns_on_board(turns@.take(i as int), board_idx),
        decreases turns.len() - i,
    {
        assert(turns@.take(i + 1).drop_last() =~= turns@.take(i as int));
        if turns[i].envoy.board_idx == board_idx && turns[i].mode == TurnMode::Preturn {
            count = count + 1;
        }
        i = i + 1;
    }
    assert(turns@.take(turns.len() as int) =~= turns@);
    count
}

/// A board with a queued preturn has a last turn.
proof fn lemma_preturn_has_last_turn(turns: Seq<TurnRecordExpanded>, board_idx: BughouseBoard)
    requires
        spec_num_preturns_on_board(turns, board_idx) > 0,
    ensures
        spec_last_turn_on_board(turns, board_idx) matches Some(k) && 0 <= k < turns.len()
            && turns[k].envoy.board_idx == board_idx,
    decreases turns.len(),
{
    if turns.last().envoy.board_idx != board_idx {
        lemma_preturn_has_last_turn(turns.drop_last(), board_idx);
    }
}

/// Whether no turn on `board_idx` among the first `n` local turns failed to apply.
pub open spec fn spec_board_ok(
    turns: Seq<TurnRecordExpanded>,
    applies: Seq<bool>,
    n: int,
    board_idx: BughouseBoard,
) -> bool
    decreases n,
{
    if n <= 0 {
        true
    } else {
        spec_board_ok(turns, applies, n - 1, board_idx) && (turns[n - 1].envoy.board_idx
            != board_idx || applies[n - 1])
    }
}

/// The `i`-th local turn is kept: neither it nor an earlier turn on its board failed.
pub open spec fn spec_turn_kept(turns: Seq<TurnRecordExpanded>, applies: Seq<bool>, i: int) -> bool {
    spec_board_ok(turns, applies, i + 1, turns[i].envoy.board_idx)
}

/// The kept turns among the first `n`, in order.
pub open spec fn spec_kept_local_turns(
    turns: Seq<TurnRecordExpanded>,
    applies: Seq<bool>,
    n: int,
) -> Seq<TurnRecordExpanded>
    decreases n,
{
    if n <= 0 {
        Seq::empty()
    } else {
        let prev = spec_kept_local_turns(turns, applies, n - 1);
        if spec_turn_kept(turns, applies, n - 1) {
            prev.push(turns[n - 1])
        } else {
            prev
        }
    }
}

/// Drops the local turns that no longer apply. `applies[i]` tells whether the `i`-th local
/// turn applied when the local turns were replayed in order on the confirmed game. Once a
/// turn on a board fails, every later turn on that board is dropped too.
pub fn discard_invalid_local_turns(local_turns: &mut Vec<TurnRecordExpanded>, applies: &Vec<bool>)
    requires
        old(local_turns).len() == applies.len(),
    ensures
        final(local_turns)@ == spec_kept_local_turns(
            old(local_turns)@,
            applies@,
            old(local_turns)@.len() as int,
        ),
{
    let ghost turns = local_turns@;
    let mut kept: Vec<TurnRecordExpanded> = Vec::new();
    let mut ok_a = true;
    let mut ok_b = true;
    let mut i: usize = 0;
    while i < local_turns.len()
        invariant
            i <= local_turns.len(),
            local_turns@ == turns,
            applies@.len() == turns.len(),
            ok_a == spec_board_ok(turns, applies@, i as int, BughouseBoard::A),
            ok_b == spec_board_ok(turns, applies@, i as int, BughouseBoard::B),
            kept@ == spec_kept_local_turns(turns, applies@, i as int),
        decreases local_turns.len() - i,
    {
        let keep = match local_turns[i].envoy.board_idx {
            BughouseBoard::A => {
                ok_a = ok_a && applies[i];
                ok_a
            },
            BughouseBoard::B => {
                ok_b = ok_b && applies[i];
                ok_b
            },
        };
        if keep {
            kept.push(local_turns[i].duplicate());
        }
        i = i + 1;
    }
    *local_turns = kept;
}

proof fn lemma_board_ok_stays_failed(
    turns: Seq<TurnRecordExpanded>,
    applies: Seq<bool>,
    n: int,
    m: int,
    board_idx: BughouseBoard,
)
    requires
        0 <= n <= m,
        !spec_board_ok(turns, applies, n, board_idx),
    ensures
        !spec_board_ok(turns, applies, m, board_idx),
    decreases m - n,
{
    if m > n {
        lemma_board_ok_stays_failed(turns, applies, n, m - 1, board_idx);
    }
}

/// Once a local turn on a board is dropped, every later local turn on that board is
/// dropped too: invalid turns are cut off each board as a suffix.
pub proof fn lemma_dropped_turn_drops_later_ones(
    turns: Seq<TurnRecordExpanded>,
    applies: Seq<bool>,
    i: int,
    j: int,
)
    requires
        0 <= i < j < turns.len(),
        turns[i].envoy.board_idx == turns[j].envoy.board_idx,
        !spec_turn_kept(turns, applies, i),
    ensures
        !spec_turn_kept(turns, applies, j),
{
    lemma_board_ok_stays_failed(turns, applies, i + 1, j + 1, turns[i].envoy.board_idx);
}

impl AlteredGame {
    /// The checks made before a local turn on `board_idx` is tried on the game
    /// (`local_turns`: the local turns not yet confirmed by the server; `max_preturns`:
    /// the preturn limit of the rules). On success, the side that makes the turn.
    pub fn check_local_turn(
        &self,
        board_idx: BughouseBoard,
        local_turns: &Vec<TurnRecordExpanded>,
        max_preturns: usize,
    ) -> (r: Result<BughouseEnvoy, TurnError>)
        ensures
            r == spec_check_local_turn(
                self.spec_my_id(),
                board_idx,
                self.spec_wayback(board_idx) is Some,
                spec_num_preturns_on_board(local_turns@, board_idx),
                max_preturns as nat,
            ),
    {
        let envoy = match self.my_id.envoy_for(board_idx) {
            Some(e) => e,
            None => {
                return Err(TurnError::NotPlayer);
            },
        };
        if self.wayback_turn_index.get(board_idx).is_some() {
            return Err(TurnError::WaybackIsActive);
        }
        if num_preturns_on_board(local_turns, board_idx) >= max_preturns {
            return Err(TurnError::PreturnLimitReached);
        }
        Ok(envoy)
    }

    /// Queues a local turn that the game accepted, and ends the drag that made it.
    pub fn add_local_turn(&mut self, local_turns: &mut Vec<TurnRecordExpanded>, record: TurnRecordExpanded)
        ensures
            final(local_turns)@ == old(local_turns)@.push(record),
            final(self).spec_piece_drag() is None,
            final(self).spec_my_id() == old(self).spec_my_id(),
            forall|b: BughouseBoard| #[trigger] final(self).spec_wayback(b) == old(self).spec_wayback(b),
    {
        local_turns.push(record);
        self.piece_drag = None;
    }

    /// Cancels the latest preturn on a board: when a preturn is queued there, the last
    /// local turn on that board is removed. Any drag is aborted. Tells whether a preturn
    /// was cancelled.
    pub fn cancel_preturn(
        &mut self,
        board_idx: BughouseBoard,
        local_turns: &mut Vec<TurnRecordExpanded>,
    ) -> (r: bool)
        ensures
            r == (spec_num_preturns_on_board(old(local_turns)@, board_idx) > 0),
            final(local_turns)@ == (if r {
                old(local_turns)@.remove(spec_last_turn_on_board(old(local_turns)@, board_idx)->0)
            } else {
                old(local_turns)@
            }),
            final(self).spec_piece_drag() is None,
            final(self).spec_my_id() == old(self).spec_my_id(),
            forall|b: BughouseBoard| #[trigger] final(self).spec_wayback(b) == old(self).spec_wayback(b),
    {
        self.piece_drag = None;
        if num_preturns_on_board(local_turns, board_idx) == 0 {
            return false;
        }
        proof {
            lemma_preturn_has_last_turn(local_turns@, board_idx);
        }
        let ghost turns = local_turns@;
        let mut found: Option<usize> = None;
        let mut i: usize = local_turns.len();
        assert(turns.take(i as int) =~= turns);
        while i > 0 && found.is_none()
            invariant
                i <= local_turns.len(),
                local_turns@ == turns,
                found is None ==> spec_last_turn_on_board(turns, board_idx)
                    == spec_last_turn_on_board(turns.take(i as int), board_idx),
                found matches Some(k) ==> spec_last_turn_on_board(turns, board_idx) == Some(
                    k as int,
                ),
            decreases i,
        {
            i = i - 1;
            assert(turns.take(i + 1).drop_last() =~= turns.take(i as int));
            if local_turns[i].envoy.board_idx == board_idx {
                found = Some(i);
            }
        }
        match found {
            Some(k) => {
                local_turns.remove(k);
                true
            },
            None => {
                assert(spec_last_turn_on_board(turns.take(0), board_idx) is None);
                false
            },
        }
    }

    /// Drops every local change: the local turns and the drag.
    pub fn reset_local_changes(&mut self, local_turns: &mut Vec<TurnRecordExpanded>)
        ensures
            final(local_turns)@ == Seq::<TurnRecordExpanded>::empty(),
            final(self).spec_piece_drag() is None,
            final(self).spec_my_id() == old(self).spec_my_id(),
            forall|b: BughouseBoard| #[trigger] final(self).spec_wayback(b) == old(self).spec_wayback(b),
    {
        *local_turns = Vec::new();
        self.piece_drag = None;
    }

    /// Takes in a turn by `envoy` that the server confirmed, once the caller has applied it
    /// to the confirmed game. `game_active` tells whether that game is still going;
    /// `first_own_matches` whether the first local turn by `envoy`, replayed on the game as
    /// confirmed before, is that turn. A finished game drops every local change. Otherwise
    /// the local copy of the turn is reconciled; the caller then replays the local turns for
    /// `discard_invalid_local_turns`, and checks the drag with `settle_drag`.
    pub fn take_remote_turn(
        &mut self,
        local_turns: &mut Vec<TurnRecordExpanded>,
        envoy: BughouseEnvoy,
        game_active: bool,
        first_own_matches: bool,
    )
        ensures
            !game_active ==> final(local_turns)@ == Seq::<TurnRecordExpanded>::empty()
                && final(self).spec_piece_drag() is None,
            game_active ==> final(local_turns)@ == spec_reconcile_local_turns(
                old(local_turns)@,
                envoy,
                first_own_matches,
            ) && final(self).spec_piece_drag() == old(self).spec_piece_drag(),
            final(self).spec_my_id() == old(self).spec_my_id(),
            forall|b: BughouseBoard| #[trigger] final(self).spec_wayback(b) == old(self).spec_wayback(b),
    {
        if game_active {
            reconcile_local_turns(local_turns, envoy, first_own_matches);
        } else {
            self.reset_local_changes(local_turns);
        }
    }

    /// Checks the drag against `boards`, the position with local turns, lifting the dragged
    /// piece from it. A drag whose piece can no longer be lifted (captured by the opponent,
    /// or brought by a preturn that was dropped) is marked defunct.
    pub fn settle_drag(&mut self, boards: &mut PerBoard<Board>)
        requires
            old(boards).a.wf(),
            old(boards).b.wf(),
        ensures
            final(self).spec_piece_drag() == (if spec_apply_drag_succeeds(
                old(self).spec_my_id(),
                old(self).spec_piece_drag(),
                old(boards).spec_get(old(self).spec_piece_drag()->0.board_idx),
            ) {
                old(self).spec_piece_drag()
            } else {
                Some(spec_defunct(old(self).spec_piece_drag()->0))
            }),
            final(self).spec_my_id() == old(self).spec_my_id(),
            forall|b: BughouseBoard| #[trigger] final(self).spec_wayback(b) == old(self).spec_wayback(b),
    {
        let r = self.apply_drag(boards);
        if r.is_err() {
            self.invalidate_drag();
        }
    }
}


// ---------------------------------------------------------------------------------------
// Laws on each board's own fog, side and turn log

/// The highlights of both boards before overlapping ones are resolved, as
/// `AlteredGame::turn_highlights` gathers them.
pub open spec fn spec_all_turn_highlights(
    game: AlteredGame,
    log: Seq<TurnRecordExpanded>,
    see_through_fog: bool,
    fog_of_war_area: PerBoard<Vec<Coord>>,
) -> Seq<TurnHighlight> {
    spec_board_highlights(
        game.spec_my_id(),
        log,
        BughouseBoard::A,
        game.spec_wayback(BughouseBoard::A),
        spec_fog_cover(see_through_fog, fog_of_war_area, BughouseBoard::A),
    ) + spec_board_highlights(
        game.spec_my_id(),
        log,
        BughouseBoard::B,
        game.spec_wayback(BughouseBoard::B),
        spec_fog_cover(see_through_fog, fog_of_war_area, BughouseBoard::B),
    )
}

/// A highlight of board `board_idx` that shows nothing under `fog`.
pub open spec fn respects_board_fog(h: TurnHighlight, board_idx: BughouseBoard, fog: Seq<Coord>) -> bool {
    &&& h.board_idx == board_idx
    &&& fog.contains(h.coord) ==> h.item == TurnHighlightItem::Capture && h.layer
        == TurnHighlightLayer::AboveFog
}

proof fn lemma_turn_respects_fog(
    family: TurnHighlightFamily,
    board_idx: BughouseBoard,
    turn: TurnExpanded,
    fog: Seq<Coord>,
)
    ensures
        forall|i: int|
            0 <= i < spec_turn_highlights(family, board_idx, turn, fog).len() ==> respects_board_fog(
                #[trigger] spec_turn_highlights(family, board_idx, turn, fog)[i],
                board_idx,
                fog,
            ),
{
    lemma_highlights_respect_fog(family, board_idx, spec_highlight_basis(turn), fog);
}

proof fn lemma_megaturn_respects_fog(
    s: Seq<TurnRecordExpanded>,
    envoy: BughouseEnvoy,
    board_idx: BughouseBoard,
    fog: Seq<Coord>,
)
    ensures
        forall|i: int|
            0 <= i < spec_latest_megaturn_highlights(s, envoy, board_idx, fog).len()
                ==> respects_board_fog(
                #[trigger] spec_latest_megaturn_highlights(s, envoy, board_idx, fog)[i],
                board_idx,
                fog,
            ),
    decreases s.len(),
{
    if s.len() > 0 && s.last().envoy == envoy {
        lemma_turn_respects_fog(TurnHighlightFamily::LatestTurn, board_idx, s.last().turn_expanded, fog);
        lemma_megaturn_respects_fog(s.drop_last(), envoy, board_idx, fog);
        let a = spec_turn_highlights(
            TurnHighlightFamily::LatestTurn,
            board_idx,
            s.last().turn_expanded,
            fog,
        );
        let b = spec_latest_megaturn_highlights(s.drop_last(), envoy, board_idx, fog);
        assert forall|i: int| 0 <= i < (a + b).len() implies respects_board_fog(
            #[trigger] (a + b)[i],
            board_idx,
            fog,
        ) by {
            if i < a.len() {
                assert((a + b)[i] == a[i]);
            } else {
                assert((a + b)[i] == b[i - a.len()]);
            }
        }
    }
}

proof fn lemma_preturns_respect_fog(s: Seq<TurnRecordExpanded>, board_idx: BughouseBoard, fog: Seq<Coord>)
    ensures
        forall|i: int|
            0 <= i < spec_preturn_highlights(s, board_idx, fog).len() ==> respects_board_fog(
                #[trigger] spec_preturn_highlights(s, board_idx, fog)[i],
                board_idx,
                fog,
            ),
    decreases s.len(),
{
    if s.len() > 0 {
        lemma_preturns_respect_fog(s.drop_last(), board_idx, fog);
        lemma_turn_respects_fog(TurnHighlightFamily::Preturn, board_idx, s.last().turn_expanded, fog);
        let a = spec_preturn_highlights(s.drop_last(), board_idx, fog);
        let b = if s.last().mode == TurnMode::Preturn {
            spec_turn_highlights(TurnHighlightFamily::Preturn, board_idx, s.last().turn_expanded, fog)
        } else {
            Seq::empty()
        };
        assert forall|i: int| 0 <= i < (a + b).len() implies respects_board_fog(
            #[trigger] (a + b)[i],
            board_idx,
            fog,
        ) by {
            if i < a.len() {
                assert((a + b)[i] == a[i]);
            } else {
                assert((a + b)[i] == b[i - a.len()]);
            }
        }
    }
}

proof fn lemma_board_highlights_respect_fog(
    my_id: BughouseParticipant,
    log: Seq<TurnRecordExpanded>,
    board_idx: BughouseBoard,
    wayback: Option<Seq<char>>,
    fog: Seq<Coord>,
)
    ensures
        forall|i: int|
            0 <= i < spec_board_highlights(my_id, log, board_idx, wayback, fog).len()
                ==> respects_board_fog(
                #[trigger] spec_board_highlights(my_id, log, board_idx, wayback, fog)[i],
                board_idx,
                fog,
            ),
{
    let turn_log = spec_board_turn_log_modulo_wayback(log, board_idx, wayback);
    if turn_log.len() > 0 {
        lemma_megaturn_respects_fog(turn_log, turn_log.last().envoy, board_idx, fog);
    }
    lemma_preturns_respect_fog(turn_log, board_idx, fog);
    let a = if turn_log.len() > 0 && (!spec_plays_for(my_id, turn_log.last().envoy)
        || wayback is Some) {
        spec_latest_megaturn_highlights(turn_log, turn_log.last().envoy, board_idx, fog)
    } else {
        Seq::empty()
    };
    let b = spec_preturn_highlights(turn_log, board_idx, fog);
    assert forall|i: int| 0 <= i < (a + b).len() implies respects_board_fog(
        #[trigger] (a + b)[i],
        board_idx,
        fog,
    ) by {
        if i < a.len() {
            assert((a + b)[i] == a[i]);
        } else {
            assert((a + b)[i] == b[i - a.len()]);
        }
    }
}

proof fn lemma_all_highlights_respect_fog(
    game: AlteredGame,
    log: Seq<TurnRecordExpanded>,
    see_through_fog: bool,
    fog_of_war_area: PerBoard<Vec<Coord>>,
)
    ensures
        forall|h: TurnHighlight|
            #[trigger] spec_all_turn_highlights(game, log, see_through_fog, fog_of_war_area).contains(
                h,
            ) ==> respects_board_fog(
                h,
                h.board_idx,
                spec_fog_cover(see_through_fog, fog_of_war_area, h.board_idx),
            ),
{
    let fa = spec_fog_cover(see_through_fog, fog_of_war_area, BughouseBoard::A);
    let fb = spec_fog_cover(see_through_fog, fog_of_war_area, BughouseBoard::B);
    let a = spec_board_highlights(game.spec_my_id(), log, BughouseBoard::A, game.spec_wayback(BughouseBoard::A), fa);
    let b = spec_board_highlights(game.spec_my_id(), log, BughouseBoard::B, game.spec_wayback(BughouseBoard::B), fb);
    lemma_board_highlights_respect_fog(game.spec_my_id(), log, BughouseBoard::A, game.spec_wayback(BughouseBoard::A), fa);
    lemma_board_highlights_respect_fog(game.spec_my_id(), log, BughouseBoard::B, game.spec_wayback(BughouseBoard::B), fb);
    assert forall|h: TurnHighlight| #[trigger] (a + b).contains(h) implies respects_board_fog(
        h,
        h.board_idx,
        spec_fog_cover(see_through_fog, fog_of_war_area, h.board_idx),
    ) by {
        lemma_concat_contains(a, b, h);
        if a.contains(h) {
            let i = choose|i: int| 0 <= i < a.len() && a[i] == h;
            assert(respects_board_fog(a[i], BughouseBoard::A, fa));
        } else {
            let i = choose|i: int| 0 <= i < b.len() && b[i] == h;
            assert(respects_board_fog(b[i], BughouseBoard::B, fb));
        }
    }
}

/// Each board's highlights are filtered by that board's own fog: while the fog is in
/// force, every turn highlight on a square that its board's fog covers is a capture drawn
/// above the fog; every other kind of highlight lies outside its board's fog.
pub proof fn lemma_turn_highlights_use_own_board_fog(
    game: AlteredGame,
    log: Seq<TurnRecordExpanded>,
    see_through_fog: bool,
    fog_of_war_area: PerBoard<Vec<Coord>>,
    r: Seq<TurnHighlight>,
)
    requires
        one_max_per_square(r, spec_all_turn_highlights(game, log, see_through_fog, fog_of_war_area)),
    ensures
        forall|i: int|
            0 <= i < r.len() && !see_through_fog && fog_of_war_area.spec_get(
                #[trigger] r[i].board_idx,
            )@.contains(r[i].coord) ==> r[i].item == TurnHighlightItem::Capture && r[i].layer
                == TurnHighlightLayer::AboveFog,
{
    lemma_all_highlights_respect_fog(game, log, see_through_fog, fog_of_war_area);
    assert forall|i: int|
        0 <= i < r.len() && !see_through_fog && fog_of_war_area.spec_get(
            #[trigger] r[i].board_idx,
        )@.contains(r[i].coord) implies r[i].item == TurnHighlightItem::Capture && r[i].layer
        == TurnHighlightLayer::AboveFog by {
        assert(spec_all_turn_highlights(game, log, see_through_fog, fog_of_war_area).contains(r[i]));
    }
}

/// The fog of one board has no effect on the highlights of the other: two fog areas that
/// agree on board `board_idx` give the same highlights there.
pub proof fn lemma_turn_highlights_board_independent(
    game: AlteredGame,
    log: Seq<TurnRecordExpanded>,
    see_through_fog: bool,
    fog1: PerBoard<Vec<Coord>>,
    fog2: PerBoard<Vec<Coord>>,
    board_idx: BughouseBoard,
)
    requires
        fog1.spec_get(board_idx)@ == fog2.spec_get(board_idx)@,
    ensures
        forall|h: TurnHighlight|
            h.board_idx == board_idx ==> (spec_all_turn_highlights(
                game,
                log,
                see_through_fog,
                fog1,
            ).contains(h) <==> #[trigger] spec_all_turn_highlights(
                game,
                log,
                see_through_fog,
                fog2,
            ).contains(h)),
{
    lemma_all_highlights_respect_fog(game, log, see_through_fog, fog1);
    lemma_all_highlights_respect_fog(game, log, see_through_fog, fog2);
    let my_id = game.spec_my_id();
    let wa = game.spec_wayback(BughouseBoard::A);
    let wb = game.spec_wayback(BughouseBoard::B);
    let fa1 = spec_fog_cover(see_through_fog, fog1, BughouseBoard::A);
    let fb1 = spec_fog_cover(see_through_fog, fog1, BughouseBoard::B);
    let fa2 = spec_fog_cover(see_through_fog, fog2, BughouseBoard::A);
    let fb2 = spec_fog_cover(see_through_fog, fog2, BughouseBoard::B);
    let a1 = spec_board_highlights(my_id, log, BughouseBoard::A, wa, fa1);
    let b1 = spec_board_highlights(my_id, log, BughouseBoard::B, wb, fb1);
    let a2 = spec_board_highlights(my_id, log, BughouseBoard::A, wa, fa2);
    let b2 = spec_board_highlights(my_id, log, BughouseBoard::B, wb, fb2);
    lemma_board_highlights_respect_fog(my_id, log, BughouseBoard::A, wa, fa1);
    lemma_board_highlights_respect_fog(my_id, log, BughouseBoard::B, wb, fb1);
    lemma_board_highlights_respect_fog(my_id, log, BughouseBoard::A, wa, fa2);
    lemma_board_highlights_respect_fog(my_id, log, BughouseBoard::B, wb, fb2);
    assert forall|h: TurnHighlight| h.board_idx == board_idx implies ((a1 + b1).contains(h)
        <==> #[trigger] (a2 + b2).contains(h)) by {
        lemma_concat_contains(a1, b1, h);
        lemma_concat_contains(a2, b2, h);
        lemma_board_member(a1, BughouseBoard::A, fa1, h);
        lemma_board_member(b1, BughouseBoard::B, fb1, h);
        lemma_board_member(a2, BughouseBoard::A, fa2, h);
        lemma_board_member(b2, BughouseBoard::B, fb2, h);
        if board_idx == BughouseBoard::A {
            assert(fa1 == fa2);
        } else {
            assert(fb1 == fb2);
        }
    }
}

proof fn lemma_concat_contains<T>(a: Seq<T>, b: Seq<T>, x: T)
    ensures
        (a + b).contains(x) <==> a.contains(x) || b.contains(x),
{
    if (a + b).contains(x) {
        let i = choose|i: int| 0 <= i < (a + b).len() && (a + b)[i] == x;
        if i < a.len() {
            assert(a[i] == x);
        } else {
            assert(b[i - a.len()] == x);
        }
    }
    if a.contains(x) {
        let i = choose|i: int| 0 <= i < a.len() && a[i] == x;
        assert((a + b)[i] == x);
    }
    if b.contains(x) {
        let i = choose|i: int| 0 <= i < b.len() && b[i] == x;
        assert((a + b)[a.len() + i] == x);
    }
}

proof fn lemma_board_member(s: Seq<TurnHighlight>, board_idx: BughouseBoard, fog: Seq<Coord>, h: TurnHighlight)
    requires
        forall|i: int| 0 <= i < s.len() ==> respects_board_fog(#[trigger] s[i], board_idx, fog),
    ensures
        s.contains(h) ==> h.board_idx == board_idx,
{
    if s.contains(h) {
        let i = choose|i: int| 0 <= i < s.len() && s[i] == h;
        assert(respects_board_fog(s[i], board_idx, fog));
    }
}


/// Fog of war hides the opponent and never one's own team: with fog of war and no
/// historical position shown, a square outside the fog-free area that holds a piece is
/// fogged exactly when the piece is not of the side the participant's team plays on that
/// board. A single player's team plays the player's own side on the player's board and the
/// other side on the partner's board.
pub proof fn lemma_fog_hides_opponent_only(
    player: BughousePlayer,
    board_idx: BughouseBoard,
    fog_free_area: Seq<Coord>,
    board: Board,
    coord: Coord,
)
    requires
        !fog_free_area.contains(coord),
        board.spec_piece(coord) is Some,
    ensures
        ({
            let own = match player {
                BughousePlayer::SinglePlayer(e) => if e.board_idx == board_idx {
                    e.force
                } else {
                    e.force.spec_opponent()
                },
                BughousePlayer::DoublePlayer(team) => match (team, board_idx) {
                    (Team::Red, BughouseBoard::A) | (Team::Blue, BughouseBoard::B) => Force::White,
                    _ => Force::Black,
                },
            };
            spec_fogged(
                BughouseParticipant::Player(player),
                false,
                board_idx,
                true,
                fog_free_area,
                board,
                coord,
            ) <==> board.spec_piece(coord)->0.force != own
        }),
{
}

/// Observers, ordinary chess and squares in the fog-free area are never fogged.
pub proof fn lemma_fog_only_outside_free_area(
    my_id: BughouseParticipant,
    wayback_active: bool,
    board_idx: BughouseBoard,
    fog_of_war: bool,
    fog_free_area: Seq<Coord>,
    board: Board,
    coord: Coord,
)
    ensures
        (my_id is Observer || !fog_of_war || fog_free_area.contains(coord)) ==> !spec_fogged(
            my_id,
            wayback_active,
            board_idx,
            fog_of_war,
            fog_free_area,
            board,
            coord,
        ),
        my_id is Player && fog_of_war && !fog_free_area.contains(coord) && wayback_active
            ==> spec_fogged(my_id, wayback_active, board_idx, fog_of_war, fog_free_area, board, coord),
{
}

/// A pawn dropped on its last row is promoted to the piece asked for, and nowhere else:
/// the last row is the top row (index 7) for White and the bottom row (index 0) for Black.
pub proof fn lemma_pawn_promotes_on_its_last_row(
    drag: PieceDrag,
    source: Coord,
    dest: Coord,
    promote_to: PieceKind,
)
    requires
        drag.piece_kind == PieceKind::Pawn,
        drag.source == PieceDragSource::Board(source),
        source != dest,
    ensures
        spec_drag_drop(Some(drag), dest, promote_to) == Ok::<TurnInput, PieceDragError>(
            TurnInput::DragDrop(
                Turn::Move(
                    TurnMove {
                        from: source,
                        to: dest,
                        promote_to: if (drag.piece_force == Force::White && dest.row == 7) || (
                        drag.piece_force == Force::Black && dest.row == 0) {
                            Some(promote_to)
                        } else {
                            None
                        },
                    },
                ),
            ),
        ),
{
}

/// A king moved by two or more columns along its own back rank castles towards the side
/// it moved to; any other king move is a plain move. The back rank is the bottom row
/// (index 0) for White and the top row (index 7) for Black.
pub proof fn lemma_king_castles_along_its_back_rank(
    drag: PieceDrag,
    source: Coord,
    dest: Coord,
    promote_to: PieceKind,
)
    requires
        drag.piece_kind == PieceKind::King,
        drag.source == PieceDragSource::Board(source),
        source != dest,
    ensures
        ({
            let back = if drag.piece_force == Force::White {
                0int
            } else {
                7int
            };
            spec_drag_drop(Some(drag), dest, promote_to) == if source.row == back && dest.row
                == back && (dest.col - source.col >= 2 || source.col - dest.col >= 2) {
                Ok::<TurnInput, PieceDragError>(
                    TurnInput::DragDrop(
                        Turn::Castle(
                            if dest.col > source.col {
                                CastleDirection::HSide
                            } else {
                                CastleDirection::ASide
                            },
                        ),
                    ),
                )
            } else {
                Ok::<TurnInput, PieceDragError>(
                    TurnInput::DragDrop(
                        Turn::Move(TurnMove { from: source, to: dest, promote_to: None }),
                    ),
                )
            }
        }),
{
}

/// The last turn made on a board is found whatever was played after it on the other
/// board: when the turn at `k` is on `board_idx` and no later turn is, its index is the
/// last board turn index.
pub proof fn lemma_last_board_turn_index(
    log: Seq<TurnRecordExpanded>,
    board_idx: BughouseBoard,
    k: int,
)
    requires
        0 <= k < log.len(),
        log[k].envoy.board_idx == board_idx,
        forall|j: int| k < j < log.len() ==> (#[trigger] log[j]).envoy.board_idx != board_idx,
    ensures
        spec_last_board_turn_index(log, board_idx) == Some(log[k].index@),
    decreases log.len(),
{
    if k < log.len() - 1 {
        assert forall|j: int| k < j < log.drop_last().len() implies (
        #[trigger] log.drop_last()[j]).envoy.board_idx != board_idx by {
            assert(log.drop_last()[j] == log[j]);
        }
        lemma_last_board_turn_index(log.drop_last(), board_idx, k);
        assert(log.drop_last()[k] == log[k]);
    }
}

/// A board on which no turn was made has no last turn index.
pub proof fn lemma_no_board_turn_index(log: Seq<TurnRecordExpanded>, board_idx: BughouseBoard)
    requires
        forall|j: int| 0 <= j < log.len() ==> (#[trigger] log[j]).envoy.board_idx != board_idx,
    ensures
        spec_last_board_turn_index(log, board_idx) is None,
    decreases log.len(),
{
    if log.len() > 0 {
        assert forall|j: int| 0 <= j < log.drop_last().len() implies (
        #[trigger] log.drop_last()[j]).envoy.board_idx != board_idx by {
            assert(log.drop_last()[j] == log[j]);
        }
        lemma_no_board_turn_index(log.drop_last(), board_idx);
    }
}

/// Going back to the last turn made on a board shows the current position: after
/// `wayback_to_turn(board_idx, Some(t), log)` where `t` is the index of the last turn on
/// that board in `log`, no historical position is shown there, whatever was played later
/// on the other board.
pub proof fn lemma_wayback_to_last_turn_shows_current(
    log: Seq<TurnRecordExpanded>,
    board_idx: BughouseBoard,
    k: int,
    turn_idx: String,
)
    requires
        0 <= k < log.len(),
        log[k].envoy.board_idx == board_idx,
        forall|j: int| k < j < log.len() ==> (#[trigger] log[j]).envoy.board_idx != board_idx,
        turn_idx@ == log[k].index@,
    ensures
        option_view(Some(turn_idx)) == spec_last_board_turn_index(log, board_idx),
{
    lemma_last_board_turn_index(log, board_idx, k);
}


proof fn lemma_wayback_target_is_last(
    log: Seq<TurnRecordExpanded>,
    board_idx: BughouseBoard,
    target: Option<Seq<char>>,
)
    ensures
        (exists|k: int|
            #![trigger log[k]]
            0 <= k < log.len() && log[k].envoy.board_idx == board_idx && target == Some(
                log[k].index@,
            ) && forall|j: int| k < j < log.len() ==> (#[trigger] log[j]).envoy.board_idx
                != board_idx) ==> target == spec_last_board_turn_index(log, board_idx),
{
    if exists|k: int|
        #![trigger log[k]]
        0 <= k < log.len() && log[k].envoy.board_idx == board_idx && target == Some(log[k].index@)
            && forall|j: int| k < j < log.len() ==> (#[trigger] log[j]).envoy.board_idx != board_idx {
        let k = choose|k: int|
            #![trigger log[k]]
            0 <= k < log.len() && log[k].envoy.board_idx == board_idx && target == Some(
                log[k].index@,
            ) && forall|j: int| k < j < log.len() ==> (#[trigger] log[j]).envoy.board_idx
                != board_idx;
        lemma_last_board_turn_index(log, board_idx, k);
    }
}

/// The index of the last turn on a board belongs to a turn on that board after which no
/// turn on that board was made; a board without turns has no such index.
pub proof fn lemma_last_board_turn_index_is_last(log: Seq<TurnRecordExpanded>, board_idx: BughouseBoard)
    ensures
        spec_last_board_turn_index(log, board_idx) matches Some(t) ==> exists|k: int|
            #![trigger log[k]]
            0 <= k < log.len() && log[k].envoy.board_idx == board_idx && log[k].index@ == t
                && forall|j: int| k < j < log.len() ==> (#[trigger] log[j]).envoy.board_idx
                != board_idx,
        spec_last_board_turn_index(log, board_idx) is None ==> forall|j: int|
            0 <= j < log.len() ==> (#[trigger] log[j]).envoy.board_idx != board_idx,
    decreases log.len(),
{
    if log.len() > 0 {
        let prev = log.drop_last();
        lemma_last_board_turn_index_is_last(prev, board_idx);
        assert forall|j: int| 0 <= j < prev.len() implies #[trigger] prev[j] == log[j] by {}
        if log.last().envoy.board_idx == board_idx {
            assert(log[log.len() - 1] == log.last());
        } else if let Some(t) = spec_last_board_turn_index(prev, board_idx) {
            let k = choose|k: int|
                #![trigger prev[k]]
                0 <= k < prev.len() && prev[k].envoy.board_idx == board_idx && prev[k].index@ == t
                    && forall|j: int| k < j < prev.len() ==> (#[trigger] prev[j]).envoy.board_idx
                    != board_idx;
            assert(log[k] == prev[k]);
            assert forall|j: int| k < j < log.len() implies (#[trigger] log[j]).envoy.board_idx
                != board_idx by {
                if j < prev.len() {
                    assert(prev[j] == log[j]);
                }
            }
        } else {
            assert forall|j: int| 0 <= j < log.len() implies (#[trigger] log[j]).envoy.board_idx
                != board_idx by {
                if j < prev.len() {
                    assert(prev[j] == log[j]);
                }
            }
        }
    }
}

/// With fog of war, a square outside the fog-free area is fogged for a player when a
/// historical position is shown, or when it is empty.
pub proof fn lemma_fog_covers_empty_squares(
    player: BughousePlayer,
    wayback_active: bool,
    board_idx: BughouseBoard,
    fog_free_area: Seq<Coord>,
    board: Board,
    coord: Coord,
)
    requires
        !fog_free_area.contains(coord),
        wayback_active || board.spec_piece(coord) is None,
    ensures
        spec_fogged(
            BughouseParticipant::Player(player),
            wayback_active,
            board_idx,
            true,
            fog_free_area,
            board,
            coord,
        ),
{
}

/// Dropping a dragged piece other than a king or a pawn moves it to the destination,
/// with no promotion; a drop with no drag, or with a defunct one, is refused.
pub proof fn lemma_other_pieces_move_plainly(
    drag: PieceDrag,
    source: Coord,
    dest: Coord,
    promote_to: PieceKind,
)
    requires
        drag.piece_kind != PieceKind::King,
        drag.piece_kind != PieceKind::Pawn,
        drag.source == PieceDragSource::Board(source),
        source != dest,
    ensures
        spec_drag_drop(Some(drag), dest, promote_to) == Ok::<TurnInput, PieceDragError>(
            TurnInput::DragDrop(Turn::Move(TurnMove { from: source, to: dest, promote_to: None })),
        ),
        spec_drag_drop(None, dest, promote_to) == Err::<TurnInput, PieceDragError>(
            PieceDragError::NoDragInProgress,
        ),
        spec_drag_drop(Some(spec_defunct(drag)), dest, promote_to) == Err::<
            TurnInput,
            PieceDragError,
        >(PieceDragError::DragNoLongerPossible),
{
}

proof fn lemma_megaturn_family(
    s: Seq<TurnRecordExpanded>,
    envoy: BughouseEnvoy,
    board_idx: BughouseBoard,
    fog: Seq<Coord>,
)
    ensures
        forall|i: int|
            0 <= i < spec_latest_megaturn_highlights(s, envoy, board_idx, fog).len()
                ==> (#[trigger] spec_latest_megaturn_highlights(s, envoy, board_idx, fog)[i]).family
                == TurnHighlightFamily::LatestTurn,
    decreases s.len(),
{
    if s.len() > 0 && s.last().envoy == envoy {
        lemma_megaturn_family(s.drop_last(), envoy, board_idx, fog);
        let a = spec_turn_highlights(
            TurnHighlightFamily::LatestTurn,
            board_idx,
            s.last().turn_expanded,
            fog,
        );
        lemma_highlights_respect_fog(
            TurnHighlightFamily::LatestTurn,
            board_idx,
            spec_highlight_basis(s.last().turn_expanded),
            fog,
        );
        let b = spec_latest_megaturn_highlights(s.drop_last(), envoy, board_idx, fog);
        assert forall|i: int| 0 <= i < (a + b).len() implies (#[trigger] (a + b)[i]).family
            == TurnHighlightFamily::LatestTurn by {
            if i < a.len() {
                assert((a + b)[i] == a[i]);
            } else {
                assert((a + b)[i] == b[i - a.len()]);
            }
        }
    }
}

proof fn lemma_preturn_family(s: Seq<TurnRecordExpanded>, board_idx: BughouseBoard, fog: Seq<Coord>)
    ensures
        forall|i: int|
            0 <= i < spec_preturn_highlights(s, board_idx, fog).len() ==> (
            #[trigger] spec_preturn_highlights(s, board_idx, fog)[i]).family
                == TurnHighlightFamily::Preturn,
        (forall|j: int| 0 <= j < s.len() ==> (#[trigger] s[j]).mode != TurnMode::Preturn)
            ==> spec_preturn_highlights(s, board_idx, fog).len() == 0,
    decreases s.len(),
{
    if s.len() > 0 {
        lemma_preturn_family(s.drop_last(), board_idx, fog);
        lemma_highlights_respect_fog(
            TurnHighlightFamily::Preturn,
            board_idx,
            spec_highlight_basis(s.last().turn_expanded),
            fog,
        );
        let a = spec_preturn_highlights(s.drop_last(), board_idx, fog);
        let b = if s.last().mode == TurnMode::Preturn {
            spec_turn_highlights(TurnHighlightFamily::Preturn, board_idx, s.last().turn_expanded, fog)
        } else {
            Seq::empty()
        };
        assert forall|i: int| 0 <= i < (a + b).len() implies (#[trigger] (a + b)[i]).family
            == TurnHighlightFamily::Preturn by {
            if i < a.len() {
                assert((a + b)[i] == a[i]);
            } else {
                assert((a + b)[i] == b[i - a.len()]);
            }
        }
        if forall|j: int| 0 <= j < s.len() ==> (#[trigger] s[j]).mode != TurnMode::Preturn {
            assert forall|j: int| 0 <= j < s.drop_last().len() implies (
            #[trigger] s.drop_last()[j]).mode != TurnMode::Preturn by {
                assert(s.drop_last()[j] == s[j]);
            }
            assert(s[s.len() - 1] == s.last());
        }
    }
}

/// The participant's own latest turn on a board is not highlighted while the current
/// position is shown: only preturns are.
pub proof fn lemma_own_latest_turn_not_highlighted(
    my_id: BughouseParticipant,
    log: Seq<TurnRecordExpanded>,
    board_idx: BughouseBoard,
    fog: Seq<Coord>,
)
    requires
        spec_board_log(log, board_idx).len() > 0,
        spec_plays_for(my_id, spec_board_log(log, board_idx).last().envoy),
    ensures
        forall|i: int|
            0 <= i < spec_board_highlights(my_id, log, board_idx, None, fog).len() ==> (
            #[trigger] spec_board_highlights(my_id, log, board_idx, None, fog)[i]).family
                == TurnHighlightFamily::Preturn,
{
    let turn_log = spec_board_log(log, board_idx);
    lemma_preturn_family(turn_log, board_idx, fog);
    assert(spec_board_highlights(my_id, log, board_idx, None, fog) =~= Seq::<TurnHighlight>::empty()
        + spec_preturn_highlights(turn_log, board_idx, fog));
}

/// An opponent's latest turn on a board is highlighted: the highlights of a board whose
/// last turn was made by the other side include those of that turn.
pub proof fn lemma_opponent_latest_turn_highlighted(
    my_id: BughouseParticipant,
    log: Seq<TurnRecordExpanded>,
    board_idx: BughouseBoard,
    fog: Seq<Coord>,
)
    requires
        spec_board_log(log, board_idx).len() > 0,
        !spec_plays_for(my_id, spec_board_log(log, board_idx).last().envoy),
    ensures
        ({
            let last = spec_board_log(log, board_idx).last();
            let turn = spec_turn_highlights(
                TurnHighlightFamily::LatestTurn,
                board_idx,
                last.turn_expanded,
                fog,
            );
            forall|i: int|
                0 <= i < turn.len() ==> spec_board_highlights(
                    my_id,
                    log,
                    board_idx,
                    None,
                    fog,
                ).contains(#[trigger] turn[i])
        }),
{
    let tl = spec_board_log(log, board_idx);
    let turn = spec_turn_highlights(TurnHighlightFamily::LatestTurn, board_idx, tl.last().turn_expanded, fog);
    let mega = spec_latest_megaturn_highlights(tl, tl.last().envoy, board_idx, fog);
    let all = spec_board_highlights(my_id, log, board_idx, None, fog);
    assert(mega == turn + spec_latest_megaturn_highlights(tl.drop_last(), tl.last().envoy, board_idx, fog));
    assert forall|i: int| 0 <= i < turn.len() implies all.contains(#[trigger] turn[i]) by {
        assert(all[i] == turn[i]);
    }
}

/// Preturn highlights come only from preturns: on a board whose turn log (as shown) holds
/// no preturn, every highlight is of the latest turn.
pub proof fn lemma_preturn_highlights_need_preturns(
    my_id: BughouseParticipant,
    log: Seq<TurnRecordExpanded>,
    board_idx: BughouseBoard,
    wayback: Option<Seq<char>>,
    fog: Seq<Coord>,
)
    requires
        forall|j: int|
            0 <= j < spec_board_turn_log_modulo_wayback(log, board_idx, wayback).len() ==> (
            #[trigger] spec_board_turn_log_modulo_wayback(log, board_idx, wayback)[j]).mode
                != TurnMode::Preturn,
    ensures
        forall|i: int|
            0 <= i < spec_board_highlights(my_id, log, board_idx, wayback, fog).len() ==> (
            #[trigger] spec_board_highlights(my_id, log, board_idx, wayback, fog)[i]).family
                == TurnHighlightFamily::LatestTurn,
{
    let tl = spec_board_turn_log_modulo_wayback(log, board_idx, wayback);
    lemma_preturn_family(tl, board_idx, fog);
    if tl.len() > 0 {
        lemma_megaturn_family(tl, tl.last().envoy, board_idx, fog);
    }
    let a = if tl.len() > 0 && (!spec_plays_for(my_id, tl.last().envoy) || wayback is Some) {
        spec_latest_megaturn_highlights(tl, tl.last().envoy, board_idx, fog)
    } else {
        Seq::empty()
    };
    assert(spec_board_highlights(my_id, log, board_idx, wayback, fog) =~= a + spec_preturn_highlights(
        tl,
        board_idx,
        fog,
    ));
    assert(a + spec_preturn_highlights(tl, board_idx, fog) =~= a);
}
} // verus!
