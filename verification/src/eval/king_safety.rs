//! King safety: where the king stands, and the pawns in front of it.

use crate::bitboard::{count_bits, population, Bitboard};
use crate::board::position::shield_squares;
use crate::board::{piece_index, Board, Position};
use crate::piece::{Color, Piece};
use crate::square::Square;
use vstd::prelude::*;

verus! {

/// What the king's square is worth, from `a1` to `h8`.
pub open spec fn king_table() -> Seq<int> {
    seq![
        -30int, -40int, -40int, -50int, -50int, -40int, -40int, -30int,
        -30int, -40int, -40int, -50int, -50int, -40int, -40int, -30int,
        -30int, -40int, -40int, -50int, -50int, -40int, -40int, -30int,
        -30int, -40int, -40int, -50int, -50int, -40int, -40int, -30int,
        -20int, -30int, -30int, -40int, -40int, -30int, -30int, -20int,
        -10int, -20int, -20int, -20int, -20int, -20int, -20int, -10int,
        20int, 20int, 0int, 0int, 0int, 0int, 20int, 20int,
        20int, 30int, 10int, 0int, 0int, 10int, 30int, 20int,
    ]
}

/// What a pawn shield is worth: ten for each pawn in it.
pub open spec fn shield_value(pawn_shield: Bitboard) -> int {
    (10 * population(pawn_shield)) as int
}

impl Position {
    /// The king safety of one side: the worth of its king's square and of
    /// its pawn shield; nothing for a side without a king.
    pub open spec fn king_safety(self, color: Color) -> int {
        if self.has_king(color) {
            king_table()[self.king_index(color) as int] + shield_value(
                self.pieces[piece_index(Piece::Pawn, color)] & shield_squares(
                    Square::at(self.king_index(color)),
                    color,
                ),
            )
        } else {
            0
        }
    }

    /// The king-safety term: White's king safety minus Black's.
    pub open spec fn king_safety_term(self) -> int {
        self.king_safety(Color::White) - self.king_safety(Color::Black)
    }
}

/// What the king's square is worth.
pub fn king_square_value(index: usize) -> (value: i32)
    requires
        index < 64,
    ensures
        value == king_table()[index as int],
        -50 <= value <= 30,
{
    let table: [i32; 64] = [
        -30, -40, -40, -50, -50, -40, -40, -30,
        -30, -40, -40, -50, -50, -40, -40, -30,
        -30, -40, -40, -50, -50, -40, -40, -30,
        -30, -40, -40, -50, -50, -40, -40, -30,
        -20, -30, -30, -40, -40, -30, -30, -20,
        -10, -20, -20, -20, -20, -20, -20, -10,
        20, 20, 0, 0, 0, 0, 20, 20,
        20, 30, 10, 0, 0, 10, 30, 20,
    ];
    table[index]
}

/// What a pawn shield is worth: ten for each pawn in it.
pub fn evaluate_pawn_shield(pawn_shield: Bitboard) -> (value: i32)
    ensures
        value == shield_value(pawn_shield),
        0 <= value <= 640,
{
    let shield_strength = count_bits(pawn_shield) as i32;
    shield_strength * 10
}

/// The king safety of one side.
pub fn side_king_safety(board: &Board, color: Color) -> (score: i32)
    ensures
        score == board@.king_safety(color),
        -50 <= score <= 670,
{
    let king = board.pieces[board.get_piece_index(Piece::King, color)];
    if king == 0 {
        return 0;
    }
    let king_square = board.king_square(color);
    proof {
        king_square.lemma_index_at();
    }
    let pawn_shield = board.pawn_shield(color, king_square);
    king_square_value(king_square.to_index()) + evaluate_pawn_shield(pawn_shield)
}

/// The king-safety term of the evaluation: White's king safety minus
/// Black's.
pub fn evaluate_king_safety(board: &Board) -> (score: i32)
    ensures
        score == board@.king_safety_term(),
        -720 <= score <= 720,
{
    side_king_safety(board, Color::White) - side_king_safety(board, Color::Black)
}

} // verus!
