//! How large an evaluation can be.
//!
//! No side has more than sixty-four pieces of a kind, so every term of the
//! evaluation is bounded, and the evaluation stays far below the score of a
//! checkmate.

use crate::bitboard::{
    lemma_lowest, lemma_members_below_bound, lemma_members_listed, member_list, Bitboard,
};
use crate::board::position::{listed_by_file, shield_squares};
use crate::board::{piece_index, Position};
use crate::eval::king_safety::king_table;
use crate::eval::pawn_structure::structure_sum;
use crate::eval::psqt::{bonus_sum, lemma_listed_length, pawn_table, table_index};
use crate::piece::{Color, Piece};
use crate::square::Square;
use vstd::prelude::*;

verus! {

/// The largest evaluation there is.
pub const EVALUATION_LIMIT: i32 = 173840;

/// The bonus of a pawn lies between -5 and 90.
pub proof fn lemma_pawn_table_bounds(index: int)
    requires
        0 <= index < 64,
    ensures
        -5 <= pawn_table()[index] <= 90,
{
}

/// The worth of the king's square lies between -50 and 30.
pub proof fn lemma_king_table_bounds(index: int)
    requires
        0 <= index < 64,
    ensures
        -50 <= king_table()[index] <= 30,
{
}

/// The bonuses of `count` squares add up to between -5 and 90 a square.
pub proof fn lemma_bonus_sum_bounds(squares: Seq<Square>, piece: Piece, color: Color, count: nat)
    requires
        count <= squares.len(),
    ensures
        -5 * count <= bonus_sum(squares, piece, color, count) <= 90 * count,
    decreases count,
{
    if count > 0 {
        lemma_bonus_sum_bounds(squares, piece, color, (count - 1) as nat);
        let index = table_index(squares[count - 1], color);
        if piece == Piece::Pawn && 0 <= index < 64 {
            lemma_pawn_table_bounds(index);
        }
    }
}

/// The worth of the structure around `count` pawns adds up to between -30
/// and 50 a pawn.
pub proof fn lemma_structure_sum_bounds(
    pawns: Bitboard,
    opposing: Bitboard,
    color: Color,
    squares: Seq<nat>,
    count: nat,
)
    requires
        count <= squares.len(),
    ensures
        -30 * count <= structure_sum(pawns, opposing, color, squares, count) <= 50 * count,
    decreases count,
{
    if count > 0 {
        lemma_structure_sum_bounds(pawns, opposing, color, squares, (count - 1) as nat);
    }
}

impl Position {
    /// The terms of the evaluation, and the evaluation, are bounded.
    pub proof fn lemma_score_bounds(self, color: Color)
        ensures
            -137600 <= self.material_term() <= 137600,
            -30400 <= self.psqt_term() <= 30400,
            -720 <= self.king_safety_term() <= 720,
            -5120 <= self.pawn_structure_term() <= 5120,
            -EVALUATION_LIMIT <= self.score(color) <= EVALUATION_LIMIT,
    {
        self.lemma_side_bounds(Color::White);
        self.lemma_side_bounds(Color::Black);
    }

    /// The shares of one side in the terms of the evaluation are bounded.
    pub proof fn lemma_side_bounds(self, color: Color)
        ensures
            0 <= self.material(color) <= 137600,
            -1600 <= self.side_bonus(color) <= 28800,
            -50 <= self.king_safety(color) <= 670,
            -1920 <= self.pawn_structure(color) <= 3200,
    {
        lemma_members_below_bound(self.pieces[piece_index(Piece::Pawn, color)], 64);
        lemma_members_below_bound(self.pieces[piece_index(Piece::Knight, color)], 64);
        lemma_members_below_bound(self.pieces[piece_index(Piece::Bishop, color)], 64);
        lemma_members_below_bound(self.pieces[piece_index(Piece::Rook, color)], 64);
        lemma_members_below_bound(self.pieces[piece_index(Piece::Queen, color)], 64);
        self.lemma_kind_bonus_bounds(Piece::Pawn, color);
        self.lemma_kind_bonus_bounds(Piece::Knight, color);
        self.lemma_kind_bonus_bounds(Piece::Bishop, color);
        self.lemma_kind_bonus_bounds(Piece::Rook, color);
        self.lemma_kind_bonus_bounds(Piece::Queen, color);
        if self.has_king(color) {
            let king = self.pieces[piece_index(Piece::King, color)];
            lemma_lowest(king);
            lemma_king_table_bounds(self.king_index(color) as int);
            let shield = self.pieces[piece_index(Piece::Pawn, color)] & shield_squares(
                Square::at(self.king_index(color)),
                color,
            );
            lemma_members_below_bound(shield, 64);
        }
        let pawns = self.pieces[piece_index(Piece::Pawn, color)];
        let opposing = self.pieces[piece_index(Piece::Pawn, color.other())];
        lemma_members_listed(pawns, 64);
        lemma_structure_sum_bounds(
            pawns,
            opposing,
            color,
            member_list(pawns),
            member_list(pawns).len(),
        );
    }

    /// The piece-square bonus of the pieces of one kind is bounded.
    pub proof fn lemma_kind_bonus_bounds(self, piece: Piece, color: Color)
        ensures
            -320 <= self.kind_bonus(piece, color) <= 5760,
    {
        let squares = listed_by_file(self.pieces[piece_index(piece, color)], 64);
        lemma_listed_length(self.pieces[piece_index(piece, color)], 64);
        lemma_bonus_sum_bounds(squares, piece, color, squares.len());
    }
}

} // verus!
