//! Questions about a position as a whole: where the kings stand, what
//! material is left, how mobile the sides are.

use crate::bitboard::{bit_at, get_lsb, is_bit_set, single, Bitboard};
use crate::board::rays::{step_from, stepped};
use crate::board::{initial_position, piece_index, Board, Position};
use crate::board::generate::forward;
use crate::piece::{Color, Piece};
use crate::square::Square;
use vstd::prelude::*;

verus! {

/// The square with number `cell` when the squares are counted file by file:
/// the a-file from the first rank to the eighth, then the b-file, and so on.
pub open spec fn file_major(cell: nat) -> nat {
    (cell % 8) * 8 + cell / 8
}

/// The members of `board` among the first `count` squares counted file by
/// file, in that order.
pub open spec fn listed_by_file(board: Bitboard, count: nat) -> Seq<Square>
    decreases count,
{
    if count == 0 {
        Seq::empty()
    } else {
        let rest = listed_by_file(board, (count - 1) as nat);
        let square = file_major((count - 1) as nat);
        if bit_at(board, square) {
            rest.push(Square::at(square))
        } else {
            rest
        }
    }
}

/// The bitboard of one square, or the empty bitboard for no square.
pub open spec fn bit_of(square: Option<Square>) -> Bitboard {
    match square {
        Some(s) => single(s.index()),
        None => 0,
    }
}

/// The squares of the pawn shield of a king on `king`: the two or three
/// squares directly in front of it, seen from its own side.
pub open spec fn shield_squares(king: Square, color: Color) -> Bitboard {
    bit_of(step_from(king.index(), -1, forward(color))) | bit_of(
        step_from(king.index(), 0, forward(color)),
    ) | bit_of(step_from(king.index(), 1, forward(color)))
}

/// A count of moves as a score: the count itself, or the largest score if
/// the count is beyond it.
pub open spec fn clamped(count: nat) -> int {
    if count > i32::MAX {
        i32::MAX as int
    } else {
        count as int
    }
}

impl Position {
    /// The balance of material, White's minus Black's: 100 a pawn, 315 a
    /// knight, 325 a bishop, 500 a rook, 900 a queen.
    pub open spec fn material_balance(self) -> int {
        100 * (self.count(Piece::Pawn, Color::White) - self.count(Piece::Pawn, Color::Black))
            + 315 * (self.count(Piece::Knight, Color::White) - self.count(
            Piece::Knight,
            Color::Black,
        )) + 325 * (self.count(Piece::Bishop, Color::White) - self.count(
            Piece::Bishop,
            Color::Black,
        )) + 500 * (self.count(Piece::Rook, Color::White) - self.count(Piece::Rook, Color::Black))
            + 900 * (self.count(Piece::Queen, Color::White) - self.count(
            Piece::Queen,
            Color::Black,
        ))
    }

    /// The number of pieces of one side.
    pub open spec fn side_count(self, color: Color) -> nat {
        self.count(Piece::Pawn, color) + self.count(Piece::Knight, color) + self.count(
            Piece::Bishop,
            color,
        ) + self.count(Piece::Rook, color) + self.count(Piece::Queen, color) + self.count(
            Piece::King,
            color,
        )
    }

    /// Whether the position is an endgame: no queens, no rooks, and at most
    /// four bishops and knights in all.
    pub open spec fn endgame(self) -> bool {
        &&& self.count(Piece::Queen, Color::White) + self.count(Piece::Rook, Color::White) == 0
        &&& self.count(Piece::Queen, Color::Black) + self.count(Piece::Rook, Color::Black) == 0
        &&& self.count(Piece::Bishop, Color::White) + self.count(Piece::Knight, Color::White)
            + self.count(Piece::Bishop, Color::Black) + self.count(Piece::Knight, Color::Black)
            <= 4
    }

    /// The mobility of a side: the number of its legal moves.
    pub open spec fn mobility(self, color: Color) -> int {
        clamped(self.legal_moves(color).len())
    }

    /// Whether the position is complex: the pieces on the board and the
    /// legal moves of both sides number more than twenty together.
    pub open spec fn complex(self) -> bool {
        self.side_count(Color::White) + self.side_count(Color::Black) + self.mobility(
            Color::White,
        ) + self.mobility(Color::Black) > 20
    }
}

impl Board {
    /// The standard starting position.
    pub fn starting_position() -> (board: Option<Board>)
        ensures
            board is Some,
            board->0@ == initial_position(),
            board->0.history@.len() == 0,
            board->0.wf(),
    {
        Some(Board::new())
    }

    /// The square of the king of `color`. The side must have a king.
    pub fn king_square(&self, color: Color) -> (square: Square)
        requires
            self@.has_king(color),
        ensures
            square.index() == self@.king_index(color),
            self@.has(square.index(), Piece::King, color),
    {
        let king_index = self.get_piece_index(Piece::King, color);
        let king_bb = self.pieces[king_index];
        Square::from_index(get_lsb(king_bb))
    }

    /// The friendly pawns on the squares directly in front of a king on
    /// `king_square`.
    pub fn pawn_shield(&self, color: Color, king_square: Square) -> (shield: Bitboard)
        ensures
            shield == self@.pieces[piece_index(Piece::Pawn, color)] & shield_squares(
                king_square,
                color,
            ),
    {
        let direction: i32 = if color == Color::White {
            1
        } else {
            -1
        };
        let left: u64 = match stepped(king_square, -1, direction) {
            Some(s) => 1u64 << s.to_index(),
            None => 0,
        };
        let middle: u64 = match stepped(king_square, 0, direction) {
            Some(s) => 1u64 << s.to_index(),
            None => 0,
        };
        let right: u64 = match stepped(king_square, 1, direction) {
            Some(s) => 1u64 << s.to_index(),
            None => 0,
        };
        let shield_mask: u64 = left | middle | right;
        self.pieces[self.get_piece_index(Piece::Pawn, color)] & shield_mask
    }

    /// The squares of the pieces of one kind and side, file by file from the
    /// a-file, and within a file from the first rank up.
    pub fn piece_squares(&self, piece: Piece, color: Color) -> (squares: Vec<Square>)
        ensures
            squares@ == listed_by_file(self@.pieces[piece_index(piece, color)], 64),
    {
        let mut squares: Vec<Square> = Vec::new();
        let bitboard = self.pieces[self.get_piece_index(piece, color)];
        let mut cell: usize = 0;
        while cell < 64
            invariant
                cell <= 64,
                squares@ == listed_by_file(bitboard, cell as nat),
            decreases 64 - cell,
        {
            let square_index: usize = (cell % 8) * 8 + cell / 8;
            if is_bit_set(bitboard, square_index) {
                squares.push(Square::from_index(square_index));
            }
            cell += 1;
        }
        squares
    }

    /// The balance of material, White's minus Black's.
    pub fn material_count(&self) -> (balance: i32)
        ensures
            balance == self@.material_balance(),
    {
        let pawns: i32 = self.piece_count(Piece::Pawn, Color::White) as i32 - self.piece_count(
            Piece::Pawn,
            Color::Black,
        ) as i32;
        let knights: i32 = self.piece_count(Piece::Knight, Color::White) as i32
            - self.piece_count(Piece::Knight, Color::Black) as i32;
        let bishops: i32 = self.piece_count(Piece::Bishop, Color::White) as i32
            - self.piece_count(Piece::Bishop, Color::Black) as i32;
        let rooks: i32 = self.piece_count(Piece::Rook, Color::White) as i32 - self.piece_count(
            Piece::Rook,
            Color::Black,
        ) as i32;
        let queens: i32 = self.piece_count(Piece::Queen, Color::White) as i32 - self.piece_count(
            Piece::Queen,
            Color::Black,
        ) as i32;
        100 * pawns + 315 * knights + 325 * bishops + 500 * rooks + 900 * queens
    }

    /// The number of pieces on the board.
    pub fn total_piece_count(&self) -> (total: i32)
        ensures
            total == self@.side_count(Color::White) + self@.side_count(Color::Black),
            0 <= total <= 768,
    {
        let white: usize = self.piece_count(Piece::Pawn, Color::White) + self.piece_count(
            Piece::Knight,
            Color::White,
        ) + self.piece_count(Piece::Bishop, Color::White) + self.piece_count(
            Piece::Rook,
            Color::White,
        ) + self.piece_count(Piece::Queen, Color::White) + self.piece_count(
            Piece::King,
            Color::White,
        );
        let black: usize = self.piece_count(Piece::Pawn, Color::Black) + self.piece_count(
            Piece::Knight,
            Color::Black,
        ) + self.piece_count(Piece::Bishop, Color::Black) + self.piece_count(
            Piece::Rook,
            Color::Black,
        ) + self.piece_count(Piece::Queen, Color::Black) + self.piece_count(
            Piece::King,
            Color::Black,
        );
        (white + black) as i32
    }

    /// Whether the position is an endgame: no queens, no rooks, and at most
    /// four bishops and knights in all.
    pub fn is_endgame(&self) -> (endgame: bool)
        ensures
            endgame == self@.endgame(),
    {
        let white_major_pieces = self.piece_count(Piece::Queen, Color::White) + self.piece_count(
            Piece::Rook,
            Color::White,
        );
        let black_major_pieces = self.piece_count(Piece::Queen, Color::Black) + self.piece_count(
            Piece::Rook,
            Color::Black,
        );
        let total_minor_pieces = self.piece_count(Piece::Bishop, Color::White) + self.piece_count(
            Piece::Knight,
            Color::White,
        ) + self.piece_count(Piece::Bishop, Color::Black) + self.piece_count(
            Piece::Knight,
            Color::Black,
        );
        white_major_pieces == 0 && black_major_pieces == 0 && total_minor_pieces <= 4
    }

    /// The mobility of a side: the number of its legal moves.
    pub fn mobility(&self, color: Color) -> (mobility: i32)
        requires
            self.wf(),
        ensures
            mobility == self@.mobility(color),
            mobility >= 0,
    {
        let legal_moves = self.generate_legal_moves(color);
        if legal_moves.len() > 2147483647 {
            i32::MAX
        } else {
            legal_moves.len() as i32
        }
    }

    /// Whether the position is complex: the pieces on the board and the
    /// legal moves of both sides number more than twenty together.
    pub fn is_complex(&self) -> (complex: bool)
        requires
            self.wf(),
        ensures
            complex == self@.complex(),
    {
        let total_pieces: i64 = self.total_piece_count() as i64;
        let white_mobility: i64 = self.mobility(Color::White) as i64;
        let black_mobility: i64 = self.mobility(Color::Black) as i64;
        let complexity_score: i64 = total_pieces + white_mobility + black_mobility;
        complexity_score > 20
    }
}

} // verus!
