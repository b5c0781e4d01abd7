//! Piece-square bonuses: what a piece is worth for where it stands.

use crate::board::position::listed_by_file;
use crate::board::{piece_index, Board, Position};
use crate::piece::{Color, Piece};
use crate::square::Square;
use vstd::prelude::*;

verus! {

/// The bonus of a White pawn by square, from `a1` to `h8`: advanced and
/// central pawns are worth more.
pub open spec fn pawn_table() -> Seq<int> {
    seq![
        0int, 5int, 5int, -5int, -5int, 5int, 5int, 0int,
        0int, 10int, -5int, 0int, 0int, -5int, 10int, 0int,
        0int, 10int, 10int, 20int, 20int, 10int, 10int, 0int,
        5int, 10int, 20int, 25int, 25int, 20int, 10int, 5int,
        10int, 20int, 20int, 30int, 30int, 20int, 20int, 10int,
        50int, 50int, 50int, 50int, 50int, 50int, 50int, 50int,
        90int, 90int, 90int, 90int, 90int, 90int, 90int, 90int,
        0int, 0int, 0int, 0int, 0int, 0int, 0int, 0int,
    ]
}

/// The bonus of a piece of the given kind on table square `index`. Only
/// pawns have a bonus of their own.
pub open spec fn table_value(piece: Piece, index: int) -> int {
    if piece == Piece::Pawn && 0 <= index < 64 {
        pawn_table()[index]
    } else {
        0
    }
}

/// The table square of a piece on `square`: the square itself for White,
/// the square seen from the other side of the board for Black.
pub open spec fn table_index(square: Square, color: Color) -> int {
    if color == Color::White {
        square.index() as int
    } else {
        63 - square.index()
    }
}

/// The bonuses of the first `count` of `squares`, added up.
pub open spec fn bonus_sum(squares: Seq<Square>, piece: Piece, color: Color, count: nat) -> int
    decreases count,
{
    if count == 0 || count > squares.len() {
        0
    } else {
        bonus_sum(squares, piece, color, (count - 1) as nat) + table_value(
            piece,
            table_index(squares[count - 1], color),
        )
    }
}

/// A list of members by file is no longer than the squares it went over.
pub proof fn lemma_listed_length(board: crate::bitboard::Bitboard, count: nat)
    ensures
        listed_by_file(board, count).len() <= count,
    decreases count,
{
    if count > 0 {
        lemma_listed_length(board, (count - 1) as nat);
    }
}

impl Position {
    /// The piece-square bonus of the pieces of one kind and side.
    pub open spec fn kind_bonus(self, piece: Piece, color: Color) -> int {
        let squares = listed_by_file(self.pieces[piece_index(piece, color)], 64);
        bonus_sum(squares, piece, color, squares.len())
    }

    /// The piece-square bonus of a side: that of its pawns, knights,
    /// bishops, rooks and queens.
    pub open spec fn side_bonus(self, color: Color) -> int {
        self.kind_bonus(Piece::Pawn, color) + self.kind_bonus(Piece::Knight, color)
            + self.kind_bonus(Piece::Bishop, color) + self.kind_bonus(Piece::Rook, color)
            + self.kind_bonus(Piece::Queen, color)
    }

    /// The piece-square term: White's bonus minus Black's.
    pub open spec fn psqt_term(self) -> int {
        self.side_bonus(Color::White) - self.side_bonus(Color::Black)
    }
}

/// The bonus of a piece of the given kind on table square `index`.
pub fn psqt_value(piece: Piece, index: usize) -> (value: i32)
    requires
        index < 64,
    ensures
        value == table_value(piece, index as int),
        -5 <= value <= 90,
{
    let table: [i32; 64] = [
        0, 5, 5, -5, -5, 5, 5, 0,
        0, 10, -5, 0, 0, -5, 10, 0,
        0, 10, 10, 20, 20, 10, 10, 0,
        5, 10, 20, 25, 25, 20, 10, 5,
        10, 20, 20, 30, 30, 20, 20, 10,
        50, 50, 50, 50, 50, 50, 50, 50,
        90, 90, 90, 90, 90, 90, 90, 90,
        0, 0, 0, 0, 0, 0, 0, 0,
    ];
    match piece {
        Piece::Pawn => table[index],
        _ => 0,
    }
}

/// The piece-square bonus of the pieces of one kind and side.
pub fn kind_psqt(board: &Board, piece: Piece, color: Color) -> (bonus: i32)
    ensures
        bonus == board@.kind_bonus(piece, color),
        -320 <= bonus <= 5760,
{
    let piece_squares = board.piece_squares(piece, color);
    proof {
        lemma_listed_length(board@.pieces[piece_index(piece, color)], 64);
    }
    let mut score: i32 = 0;
    let mut i: usize = 0;
    while i < piece_squares.len()
        invariant
            i <= piece_squares@.len() <= 64,
            score == bonus_sum(piece_squares@, piece, color, i as nat),
            -5 * i <= score <= 90 * i,
        decreases piece_squares@.len() - i,
    {
        let square = piece_squares[i];
        let index = if color == Color::White {
            square.to_index()
        } else {
            63 - square.to_index()
        };
        score = score + psqt_value(piece, index);
        i += 1;
    }
    score
}

/// The piece-square bonus of a side.
pub fn side_psqt(board: &Board, color: Color) -> (bonus: i32)
    ensures
        bonus == board@.side_bonus(color),
        -1600 <= bonus <= 28800,
{
    kind_psqt(board, Piece::Pawn, color) + kind_psqt(board, Piece::Knight, color) + kind_psqt(
        board,
        Piece::Bishop,
        color,
    ) + kind_psqt(board, Piece::Rook, color) + kind_psqt(board, Piece::Queen, color)
}

/// The piece-square term of the evaluation: White's bonus minus Black's.
pub fn evaluate_psqt(board: &Board) -> (score: i32)
    ensures
        score == board@.psqt_term(),
        -30400 <= score <= 30400,
{
    side_psqt(board, Color::White) - side_psqt(board, Color::Black)
}

} // verus!
