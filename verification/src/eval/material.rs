//! Material: what the pieces on the board are worth.

use crate::board::{Board, Position};
use crate::piece::{Color, Piece};
use vstd::prelude::*;

verus! {

pub const PAWN_VALUE: i32 = 100;

pub const KNIGHT_VALUE: i32 = 320;

pub const BISHOP_VALUE: i32 = 330;

pub const ROOK_VALUE: i32 = 500;

pub const QUEEN_VALUE: i32 = 900;

impl Position {
    /// The material of one side: 100 a pawn, 320 a knight, 330 a bishop, 500
    /// a rook, 900 a queen.
    pub open spec fn material(self, color: Color) -> int {
        (100 * self.count(Piece::Pawn, color) + 320 * self.count(Piece::Knight, color) + 330
            * self.count(Piece::Bishop, color) + 500 * self.count(Piece::Rook, color) + 900
            * self.count(Piece::Queen, color)) as int
    }

    /// The material term: White's material minus Black's.
    pub open spec fn material_term(self) -> int {
        self.material(Color::White) - self.material(Color::Black)
    }
}

/// The material of one side.
pub fn side_material(board: &Board, color: Color) -> (score: i32)
    ensures
        score == board@.material(color),
        0 <= score <= 137600,
{
    let mut material_score: i32 = 0;
    material_score += PAWN_VALUE * board.piece_count(Piece::Pawn, color) as i32;
    material_score += KNIGHT_VALUE * board.piece_count(Piece::Knight, color) as i32;
    material_score += BISHOP_VALUE * board.piece_count(Piece::Bishop, color) as i32;
    material_score += ROOK_VALUE * board.piece_count(Piece::Rook, color) as i32;
    material_score += QUEEN_VALUE * board.piece_count(Piece::Queen, color) as i32;
    material_score
}

/// The material term of the evaluation: White's material minus Black's.
pub fn evaluate_material(board: &Board) -> (score: i32)
    ensures
        score == board@.material_term(),
        -137600 <= score <= 137600,
{
    side_material(board, Color::White) - side_material(board, Color::Black)
}

} // verus!
