//! The coarse kinds of position by which the engine picks its search.

use crate::board::{Board, Position};
use crate::piece::{Color, Piece};
use vstd::prelude::*;

verus! {

/// A coarse kind of position.
#[derive(Copy, Clone, Debug, PartialEq, Eq, Structural)]
pub enum PositionType {
    Open,
    Closed,
    SemiOpen,
    SemiClosed,
    Endgame,
    Complex,
    Trivial,
}

/// The kind of a position by its material balance, the number of its pawns,
/// the mobility of the mover, and whether it is complex. The first of these
/// that holds decides: a balance below 20 is an endgame; a mobility above 50
/// with fewer than 6 pawns is open; a mobility below 30 with more than 8
/// pawns is closed; a mobility above 50 with more than 6 pawns is
/// semi-open; a mobility below 50 with more than 6 pawns is semi-closed; a
/// complex position is complex; and any other is trivial.
pub open spec fn kind_of(material: int, pawns: int, mobility: int, complex: bool) -> PositionType {
    if material < 20 {
        PositionType::Endgame
    } else if mobility > 50 && pawns < 6 {
        PositionType::Open
    } else if mobility < 30 && pawns > 8 {
        PositionType::Closed
    } else if mobility > 50 && pawns > 6 {
        PositionType::SemiOpen
    } else if mobility < 50 && pawns > 6 {
        PositionType::SemiClosed
    } else if complex {
        PositionType::Complex
    } else {
        PositionType::Trivial
    }
}

impl Position {
    /// The kind of the position when `color` is the mover.
    pub open spec fn kind(self, color: Color) -> PositionType {
        kind_of(
            self.material_balance(),
            (self.count(Piece::Pawn, Color::White) + self.count(Piece::Pawn, Color::Black)) as int,
            self.mobility(color),
            self.complex(),
        )
    }
}

/// The kind of the position on `board` when `color` is the mover.
pub fn determine_position_type(board: &Board, color: Color) -> (kind: PositionType)
    requires
        board.wf(),
    ensures
        kind == board@.kind(color),
{
    let material_count = board.material_count();
    let pawn_count = board.piece_count(Piece::Pawn, Color::White) + board.piece_count(
        Piece::Pawn,
        Color::Black,
    );
    let mobility = board.mobility(color);
    if material_count < 20 {
        PositionType::Endgame
    } else if mobility > 50 && pawn_count < 6 {
        PositionType::Open
    } else if mobility < 30 && pawn_count > 8 {
        PositionType::Closed
    } else if mobility > 50 && pawn_count > 6 {
        PositionType::SemiOpen
    } else if mobility < 50 && pawn_count > 6 {
        PositionType::SemiClosed
    } else if board.is_complex() {
        PositionType::Complex
    } else {
        PositionType::Trivial
    }
}

} // verus!
