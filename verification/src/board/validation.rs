//! Whether a given move may be made.

use crate::bitboard::{
    bit_at, clear_bit, get_lsb, lemma_and, lemma_empty, lemma_nonzero_has_member, lemma_remove,
    Bitboard,
};
use crate::board::move_gen::lemma_same_bitboards_wf;
use crate::board::{Board, Position};
use crate::error::ChessError;
use crate::piece::{Color, Piece};
use crate::square::Square;
use vstd::prelude::*;

verus! {

impl Position {
    /// Whether `to` is a target of a piece of the given kind on `from`.
    pub open spec fn reaches(self, from: Square, to: Square, piece: Piece, color: Color) -> bool {
        self.targets(piece, from, color).contains(to)
    }

    /// Whether the move is legal for `color`: a piece of `color` stands on
    /// its first square, its second square is a target of that piece, and
    /// the move does not leave the king of `color` attacked.
    pub open spec fn legal(self, mv: (Square, Square), color: Color) -> bool {
        match self.occupant(mv.0.index()) {
            Some((piece, owner)) => owner == color && self.reaches(mv.0, mv.1, piece, color)
                && self.safe(mv.0, mv.1, piece, color),
            None => false,
        }
    }

    /// The position after a move has been applied for `color`: the move is
    /// made, and the opponent of `color` is to move.
    pub open spec fn after_applied(self, mv: (Square, Square), piece: Piece, color: Color)
        -> Position {
        Position { side_to_move: color.other(), ..self.after_move(mv.0, mv.1, piece, color) }
    }
}

/// Whether `square` is among `squares`.
pub fn contains_square(squares: &Vec<Square>, square: Square) -> (found: bool)
    ensures
        found == squares@.contains(square),
{
    let mut i: usize = 0;
    while i < squares.len()
        invariant
            i <= squares@.len(),
            forall|k: int| 0 <= k < i ==> squares@[k] != square,
        decreases squares@.len() - i,
    {
        if squares[i] == square {
            return true;
        }
        i += 1;
    }
    false
}

impl Board {
    /// Whether a piece of the given kind on `from_square` may go to
    /// `to_square` by its geometry and the occupancy of the board.
    pub fn is_valid_move(&self, from_square: Square, to_square: Square, piece: Piece, color: Color)
        -> (valid: bool)
        ensures
            valid == self@.reaches(from_square, to_square, piece, color),
    {
        let possible_moves = self.generate_piece_moves(piece, from_square, color);
        contains_square(&possible_moves, to_square)
    }

    /// Whether a pawn on `from_square` may go to `to_square`.
    pub fn is_valid_pawn_move(&self, from_square: Square, to_square: Square, color: Color) -> (valid:
        bool)
        ensures
            valid == self@.reaches(from_square, to_square, Piece::Pawn, color),
    {
        self.is_valid_move(from_square, to_square, Piece::Pawn, color)
    }

    /// Whether the move is legal for `color`.
    pub fn is_legal_move(&self, mv: (Square, Square), color: Color) -> (legal: bool)
        requires
            self.wf(),
        ensures
            legal == self@.legal(mv, color),
    {
        match self.get_piece_at_square(mv.0) {
            Some((piece, piece_color)) => {
                if piece_color != color {
                    return false;
                }
                if !self.is_valid_move(mv.0, mv.1, piece, color) {
                    return false;
                }
                self.leaves_king_safe(mv.0, mv.1, piece, color)
            },
            None => false,
        }
    }

    /// Applies a move for `color`: the piece on the first square of the move
    /// goes to the second as [`Board::make_move`] takes it there, and the
    /// opponent of `color` is to move. `NoPieceAtSquare`, and no change, if
    /// no piece of `color` stands on the first square.
    pub fn apply_move(&mut self, mv: (Square, Square), color: Color) -> (applied: Result<
        (),
        ChessError,
    >)
        requires
            old(self).wf(),
        ensures
            match old(self)@.occupant(mv.0.index()) {
                Some((piece, owner)) => if owner == color {
                    &&& applied is Ok
                    &&& final(self)@ == old(self)@.after_applied(mv, piece, color)
                    &&& final(self).past() == old(self).past().push(old(self)@)
                } else {
                    &&& applied == Err::<(), ChessError>(ChessError::NoPieceAtSquare)
                    &&& final(self)@ == old(self)@
                    &&& final(self).past() == old(self).past()
                },
                None => {
                    &&& applied == Err::<(), ChessError>(ChessError::NoPieceAtSquare)
                    &&& final(self)@ == old(self)@
                    &&& final(self).past() == old(self).past()
                },
            },
            final(self).wf(),
    {
        match self.get_piece_at_square(mv.0) {
            Some((piece, piece_color)) => {
                if piece_color != color {
                    return Err(ChessError::NoPieceAtSquare);
                }
                self.make_move(mv.0, mv.1, piece, color);
                let ghost made = self@;
                self.side_to_move = color.opponent();
                proof {
                    lemma_same_bitboards_wf(made, self@);
                }
                Ok(())
            },
            None => Err(ChessError::NoPieceAtSquare),
        }
    }
}

/// Whether a bitboard has at most one member.
pub fn has_one_member_at_most(bitboard: Bitboard) -> (lone: bool)
    ensures
        lone == (forall|a: nat, b: nat|
            #[trigger] bit_at(bitboard, a) && #[trigger] bit_at(bitboard, b) ==> a == b),
{
    if bitboard == 0 {
        proof {
            lemma_empty();
        }
        return true;
    }
    let low = get_lsb(bitboard);
    let mut rest: u64 = bitboard;
    clear_bit(&mut rest, low);
    proof {
        lemma_remove(bitboard, low as nat);
        lemma_nonzero_has_member(rest);
        lemma_empty();
        if rest == 0 {
            assert forall|a: nat, b: nat| #[trigger]
                bit_at(bitboard, a) && #[trigger] bit_at(bitboard, b) implies a == b by {
                assert(!bit_at(rest, a));
                assert(!bit_at(rest, b));
            }
        } else {
            let other = choose|i: nat| bit_at(rest, i);
            assert(bit_at(bitboard, other) && other != low);
            assert(bit_at(bitboard, low as nat));
        }
    }
    rest == 0
}

/// Whether bitboards, occupancy and castling rights meet the invariant of a
/// position.
pub fn parts_are_valid(pieces: &[Bitboard; 12], occupancy: &[Bitboard; 2], castling_rights: u8)
    -> (valid: bool)
    ensures
        valid == (Position {
            pieces: pieces@,
            occupancy: occupancy@,
            side_to_move: Color::White,
            castling_rights,
            en_passant: None,
            halfmove_clock: 0,
            fullmove_number: 0,
        }).wf(),
{
    let ghost position = Position {
        pieces: pieces@,
        occupancy: occupancy@,
        side_to_move: Color::White,
        castling_rights,
        en_passant: None,
        halfmove_clock: 0,
        fullmove_number: 0,
    };
    let white: u64 = pieces[0] | pieces[1] | pieces[2] | pieces[3] | pieces[4] | pieces[5];
    let black: u64 = pieces[6] | pieces[7] | pieces[8] | pieces[9] | pieces[10] | pieces[11];
    if occupancy[0] != white || occupancy[1] != black || castling_rights >= 16 {
        return false;
    }
    let white_king_alone = has_one_member_at_most(pieces[5]);
    let black_king_alone = has_one_member_at_most(pieces[11]);
    proof {
        assert(position.lone_king(Color::White) == white_king_alone) by {
            assert(crate::board::piece_index(Piece::King, Color::White) == 5);
            if white_king_alone {
                assert forall|a: nat, b: nat| #[trigger]
                    position.has(a, Piece::King, Color::White) && #[trigger] position.has(
                        b,
                        Piece::King,
                        Color::White,
                    ) implies a == b by {
                    assert(bit_at(pieces@[5], a) && bit_at(pieces@[5], b));
                }
            } else {
                if position.lone_king(Color::White) {
                    assert forall|a: nat, b: nat| #[trigger]
                        bit_at(pieces@[5], a) && #[trigger] bit_at(pieces@[5], b) implies a
                        == b by {
                        assert(position.has(a, Piece::King, Color::White));
                        assert(position.has(b, Piece::King, Color::White));
                    }
                }
            }
        }
        assert(position.lone_king(Color::Black) == black_king_alone) by {
            assert(crate::board::piece_index(Piece::King, Color::Black) == 11);
            if black_king_alone {
                assert forall|a: nat, b: nat| #[trigger]
                    position.has(a, Piece::King, Color::Black) && #[trigger] position.has(
                        b,
                        Piece::King,
                        Color::Black,
                    ) implies a == b by {
                    assert(bit_at(pieces@[11], a) && bit_at(pieces@[11], b));
                }
            } else {
                if position.lone_king(Color::Black) {
                    assert forall|a: nat, b: nat| #[trigger]
                        bit_at(pieces@[11], a) && #[trigger] bit_at(pieces@[11], b) implies a
                        == b by {
                        assert(position.has(a, Piece::King, Color::Black));
                        assert(position.has(b, Piece::King, Color::Black));
                    }
                }
            }
        }
    }
    if !white_king_alone || !black_king_alone {
        return false;
    }
    let mut i: usize = 0;
    while i < 12
        invariant
            i <= 12,
            forall|a: int, b: int| 0 <= a < i && a < b < 12 ==> #[trigger] (pieces@[a] & pieces@[b])
                == 0,
            position.pieces == pieces@,
            !position.pieces_apart() ==> !position.wf(),
        decreases 12 - i,
    {
        let mut j: usize = i + 1;
        while j < 12
            invariant
                i < j <= 12,
                forall|a: int, b: int|
                    0 <= a < i && a < b < 12 ==> #[trigger] (pieces@[a] & pieces@[b]) == 0,
                forall|b: int| i < b < j ==> #[trigger] (pieces@[i as int] & pieces@[b]) == 0,
                position.pieces == pieces@,
                !position.pieces_apart() ==> !position.wf(),
            decreases 12 - j,
        {
            if pieces[i] & pieces[j] != 0 {
                proof {
                    let shared = pieces@[i as int] & pieces@[j as int];
                    lemma_nonzero_has_member(shared);
                    lemma_and(pieces@[i as int], pieces@[j as int]);
                    let square = choose|s: nat| bit_at(shared, s);
                    assert(bit_at(position.pieces[i as int], square));
                    assert(bit_at(position.pieces[j as int], square));
                    assert(!position.pieces_apart());
                }
                return false;
            }
            j += 1;
        }
        i += 1;
    }
    proof {
        assert forall|a: int, b: int, s: nat| 0 <= a < b < 12 implies !(#[trigger] bit_at(
            position.pieces[a],
            s,
        ) && #[trigger] bit_at(position.pieces[b], s)) by {
            assert(pieces@[a] & pieces@[b] == 0);
            crate::board::lemma_apart(pieces@[a], pieces@[b]);
        }
    }
    true
}

impl Board {
    /// Whether the board meets its invariant: the position does, and so
    /// does every record of the history.
    pub fn is_valid(&self) -> (valid: bool)
        ensures
            valid == self.wf(),
    {
        if !parts_are_valid(&self.pieces, &self.occupancy, self.castling_rights) {
            proof {
                if self@.wf() {
                    lemma_same_bitboards_wf(
                        self@,
                        Position {
                            side_to_move: Color::White,
                            en_passant: None,
                            halfmove_clock: 0,
                            fullmove_number: 0,
                            ..self@
                        },
                    );
                }
            }
            return false;
        }
        proof {
            lemma_same_bitboards_wf(
                Position {
                    side_to_move: Color::White,
                    en_passant: None,
                    halfmove_clock: 0,
                    fullmove_number: 0,
                    ..self@
                },
                self@,
            );
        }
        let mut i: usize = 0;
        while i < self.history.len()
            invariant
                i <= self.history@.len(),
                self@.wf(),
                forall|k: int| 0 <= k < i ==> (#[trigger] self.history@[k])@.wf(),
            decreases self.history@.len() - i,
        {
            let record = &self.history[i];
            let ghost bare = Position {
                side_to_move: Color::White,
                en_passant: None,
                halfmove_clock: 0,
                fullmove_number: 0,
                ..record@
            };
            if !parts_are_valid(&record.pieces, &record.occupancy, record.castling_rights) {
                proof {
                    if record@.wf() {
                        lemma_same_bitboards_wf(record@, bare);
                    }
                    assert(!self.history@[i as int]@.wf());
                }
                return false;
            }
            proof {
                lemma_same_bitboards_wf(bare, record@);
            }
            i += 1;
        }
        true
    }
}

} // verus!
