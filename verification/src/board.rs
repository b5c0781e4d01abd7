//! The position: twelve piece bitboards, the state that legality depends on,
//! and the record of moves made, with the queries that read them.
//!
//! [`Position`] is the mathematical reading of a [`Board`]: the piece
//! bitboards as a sequence, and the scalar state. Every contract in this
//! crate that speaks of a board speaks of its `Position`, written `board@`.

pub mod captures;
pub mod fen;
pub mod game_state;
pub mod generate;
pub mod laws;
pub mod move_gen;
pub mod pgn;
pub mod position;
pub mod rays;
pub mod validation;
pub mod zobrist;

use crate::bitboard::{
    bit_at, count_bits, is_bit_set, lemma_and, lemma_empty, lemma_single, population, single,
    Bitboard,
};
use crate::piece::{Color, Piece};
use crate::square::Square;
use vstd::prelude::*;

verus! {

/// All castling rights: bit 0 White king side, bit 1 White queen side, bit 2
/// Black king side, bit 3 Black queen side.
pub const ALL_CASTLING_RIGHTS: u8 = 15;

/// The bitboard index of a kind of piece of one side: White's six kinds come
/// first, then Black's.
pub open spec fn piece_index(piece: Piece, color: Color) -> int {
    (piece.ordinal() + 6 * color.ordinal()) as int
}

/// The union of six consecutive piece bitboards, starting at `first`.
pub open spec fn union_of_six(pieces: Seq<Bitboard>, first: int) -> Bitboard {
    pieces[first] | pieces[first + 1] | pieces[first + 2] | pieces[first + 3] | pieces[first + 4]
        | pieces[first + 5]
}

/// The first bitboard at or after index `start` that holds `square`.
pub open spec fn first_holder(pieces: Seq<Bitboard>, square: nat, start: nat) -> Option<nat>
    decreases 12 - start,
{
    if start >= 12 {
        None
    } else if bit_at(pieces[start as int], square) {
        Some(start)
    } else {
        first_holder(pieces, square, start + 1)
    }
}

/// The first holder of a square, where there is one, holds the square.
pub proof fn lemma_first_holder_holds(pieces: Seq<Bitboard>, square: nat, start: nat)
    requires
        first_holder(pieces, square, start) is Some,
    ensures
        start <= first_holder(pieces, square, start)->0 < 12,
        bit_at(pieces[first_holder(pieces, square, start)->0 as int], square),
    decreases 12 - start,
{
    if start < 12 && !bit_at(pieces[start as int], square) {
        lemma_first_holder_holds(pieces, square, start + 1);
    }
}

/// A position, as the contracts see it.
pub struct Position {
    /// The twelve piece bitboards, indexed by [`piece_index`].
    pub pieces: Seq<Bitboard>,
    /// The two occupancy bitboards, White's then Black's.
    pub occupancy: Seq<Bitboard>,
    /// The side that moves next.
    pub side_to_move: Color,
    /// The castling rights that are left.
    pub castling_rights: u8,
    /// The square that a pawn may capture onto in passing, if any.
    pub en_passant: Option<Square>,
    /// Half moves made, as counted by the moves themselves.
    pub halfmove_clock: u32,
    /// Number of the full move, which goes up after each move of Black.
    pub fullmove_number: u32,
}

impl Position {
    /// Whether a piece of the given kind and side stands on `square`.
    pub open spec fn has(self, square: nat, piece: Piece, color: Color) -> bool {
        bit_at(self.pieces[piece_index(piece, color)], square)
    }

    /// Whether a piece of `color` stands on `square`, by the occupancy
    /// bitboards.
    pub open spec fn held_by(self, square: nat, color: Color) -> bool {
        bit_at(self.occupancy[color.ordinal() as int], square)
    }

    /// Whether any piece stands on `square`, by the occupancy bitboards.
    pub open spec fn occupied(self, square: nat) -> bool {
        bit_at(self.occupancy[0] | self.occupancy[1], square)
    }

    /// Both sides' pieces together.
    pub open spec fn all_occupied(self) -> Bitboard {
        self.occupancy[0] | self.occupancy[1]
    }

    /// The piece on `square` and its side: that of the first bitboard, in
    /// index order, that holds the square.
    pub open spec fn occupant(self, square: nat) -> Option<(Piece, Color)> {
        match first_holder(self.pieces, square, 0) {
            Some(i) => Some(
                (
                    Piece::of_ordinal(i % 6)->0,
                    if i < 6 {
                        Color::White
                    } else {
                        Color::Black
                    },
                ),
            ),
            None => None,
        }
    }

    /// The occupancy bitboards are the unions of the sides' piece bitboards.
    pub open spec fn occupancy_in_step(self) -> bool {
        &&& self.occupancy[0] == union_of_six(self.pieces, 0)
        &&& self.occupancy[1] == union_of_six(self.pieces, 6)
    }

    /// No square holds two pieces.
    pub open spec fn pieces_apart(self) -> bool {
        forall|i: int, j: int, s: nat|
            0 <= i < j < 12 ==> !(#[trigger] bit_at(self.pieces[i], s) && #[trigger] bit_at(
                self.pieces[j],
                s,
            ))
    }

    /// A side has at most one king.
    pub open spec fn lone_king(self, color: Color) -> bool {
        forall|a: nat, b: nat|
            #[trigger] self.has(a, Piece::King, color) && #[trigger] self.has(b, Piece::King, color)
                ==> a == b
    }

    /// The invariant of a position: twelve piece bitboards and two occupancy
    /// bitboards that agree with them, no square holding two pieces, at most
    /// one king a side, and four bits of castling rights.
    pub open spec fn wf(self) -> bool {
        &&& self.pieces.len() == 12
        &&& self.occupancy.len() == 2
        &&& self.occupancy_in_step()
        &&& self.pieces_apart()
        &&& self.lone_king(Color::White)
        &&& self.lone_king(Color::Black)
        &&& self.castling_rights < 16
    }

    /// How many pieces of one kind a side has.
    pub open spec fn count(self, piece: Piece, color: Color) -> nat {
        population(self.pieces[piece_index(piece, color)])
    }
}

/// A position as it stood before a move, kept so that the move can be taken
/// back exactly.
#[derive(Copy, Clone, Debug)]
pub struct UndoRecord {
    pub pieces: [Bitboard; 12],
    pub occupancy: [Bitboard; 2],
    pub side_to_move: Color,
    pub castling_rights: u8,
    pub en_passant: Option<Square>,
    pub halfmove_clock: u32,
    pub fullmove_number: u32,
}

impl View for UndoRecord {
    type V = Position;

    open spec fn view(&self) -> Position {
        Position {
            pieces: self.pieces@,
            occupancy: self.occupancy@,
            side_to_move: self.side_to_move,
            castling_rights: self.castling_rights,
            en_passant: self.en_passant,
            halfmove_clock: self.halfmove_clock,
            fullmove_number: self.fullmove_number,
        }
    }
}

/// A chess position with the record of the moves made on it.
#[derive(Clone, Debug)]
pub struct Board {
    /// The piece bitboards: White's pawns, knights, bishops, rooks, queens
    /// and king, then Black's.
    pub pieces: [Bitboard; 12],
    /// All of White's pieces, and all of Black's.
    pub occupancy: [Bitboard; 2],
    pub side_to_move: Color,
    pub castling_rights: u8,
    pub en_passant: Option<Square>,
    pub halfmove_clock: u32,
    pub fullmove_number: u32,
    /// One record for each move made and not yet taken back, oldest first.
    pub history: Vec<UndoRecord>,
}

impl View for Board {
    type V = Position;

    open spec fn view(&self) -> Position {
        Position {
            pieces: self.pieces@,
            occupancy: self.occupancy@,
            side_to_move: self.side_to_move,
            castling_rights: self.castling_rights,
            en_passant: self.en_passant,
            halfmove_clock: self.halfmove_clock,
            fullmove_number: self.fullmove_number,
        }
    }
}

/// The standard starting position.
pub open spec fn initial_position() -> Position {
    Position {
        pieces: seq![
            0x0000_0000_0000_FF00u64,
            0x0000_0000_0000_0042u64,
            0x0000_0000_0000_0024u64,
            0x0000_0000_0000_0081u64,
            0x0000_0000_0000_0008u64,
            0x0000_0000_0000_0010u64,
            0x00FF_0000_0000_0000u64,
            0x4200_0000_0000_0000u64,
            0x2400_0000_0000_0000u64,
            0x8100_0000_0000_0000u64,
            0x0800_0000_0000_0000u64,
            0x1000_0000_0000_0000u64,
        ],
        occupancy: seq![0x0000_0000_0000_FFFFu64, 0xFFFF_0000_0000_0000u64],
        side_to_move: Color::White,
        castling_rights: 15,
        en_passant: None,
        halfmove_clock: 0,
        fullmove_number: 1,
    }
}

/// Two bitboards whose intersection is empty share no square.
pub proof fn lemma_apart(a: Bitboard, b: Bitboard)
    requires
        a & b == 0,
    ensures
        forall|s: nat| !(bit_at(a, s) && bit_at(b, s)),
{
    lemma_and(a, b);
    lemma_empty();
    assert forall|s: nat| !(bit_at(a, s) && bit_at(b, s)) by {
        assert(bit_at(a & b, s) == (bit_at(a, s) && bit_at(b, s)));
    }
}

/// A bitboard with exactly one bit has one member only.
pub proof fn lemma_one_member(a: Bitboard, s: nat)
    requires
        s < 64,
        a == single(s),
    ensures
        forall|x: nat, y: nat| bit_at(a, x) && bit_at(a, y) ==> x == y,
{
    lemma_single(s);
}

/// The starting position meets the invariant.
pub proof fn lemma_initial_position_wf()
    ensures
        initial_position().wf(),
{
    let p = initial_position();
    assert(p.occupancy_in_step()) by {
        assert(0x0000_0000_0000_FF00u64 | 0x0000_0000_0000_0042u64 | 0x0000_0000_0000_0024u64
            | 0x0000_0000_0000_0081u64 | 0x0000_0000_0000_0008u64 | 0x0000_0000_0000_0010u64
            == 0x0000_0000_0000_FFFFu64) by (bit_vector);
        assert(0x00FF_0000_0000_0000u64 | 0x4200_0000_0000_0000u64 | 0x2400_0000_0000_0000u64
            | 0x8100_0000_0000_0000u64 | 0x0800_0000_0000_0000u64 | 0x1000_0000_0000_0000u64
            == 0xFFFF_0000_0000_0000u64) by (bit_vector);
    }
    assert(p.pieces_apart()) by {
        assert forall|i: int, j: int| 0 <= i < j < 12 implies #[trigger] (p.pieces[i]
            & p.pieces[j]) == 0 by {
            let a = p.pieces[i];
            let b = p.pieces[j];
            assert(a & b == 0) by (bit_vector)
                requires
                    a == 0x0000_0000_0000_FF00u64 || a == 0x0000_0000_0000_0042u64 || a
                        == 0x0000_0000_0000_0024u64 || a == 0x0000_0000_0000_0081u64 || a
                        == 0x0000_0000_0000_0008u64 || a == 0x0000_0000_0000_0010u64 || a
                        == 0x00FF_0000_0000_0000u64 || a == 0x4200_0000_0000_0000u64 || a
                        == 0x2400_0000_0000_0000u64 || a == 0x8100_0000_0000_0000u64 || a
                        == 0x0800_0000_0000_0000u64 || a == 0x1000_0000_0000_0000u64,
                    b == 0x0000_0000_0000_FF00u64 || b == 0x0000_0000_0000_0042u64 || b
                        == 0x0000_0000_0000_0024u64 || b == 0x0000_0000_0000_0081u64 || b
                        == 0x0000_0000_0000_0008u64 || b == 0x0000_0000_0000_0010u64 || b
                        == 0x00FF_0000_0000_0000u64 || b == 0x4200_0000_0000_0000u64 || b
                        == 0x2400_0000_0000_0000u64 || b == 0x8100_0000_0000_0000u64 || b
                        == 0x0800_0000_0000_0000u64 || b == 0x1000_0000_0000_0000u64,
                    a != b,
            ;
        }
        assert forall|i: int, j: int, s: nat| 0 <= i < j < 12 implies !(#[trigger] bit_at(
            p.pieces[i],
            s,
        ) && #[trigger] bit_at(p.pieces[j], s)) by {
            assert(p.pieces[i] & p.pieces[j] == 0);
            lemma_apart(p.pieces[i], p.pieces[j]);
        }
    }
    assert(0x0000_0000_0000_0010u64 == 1u64 << 4u64) by (bit_vector);
    assert(0x1000_0000_0000_0000u64 == 1u64 << 60u64) by (bit_vector);
    lemma_one_member(p.pieces[5], 4);
    lemma_one_member(p.pieces[11], 60);
    assert(piece_index(Piece::King, Color::White) == 5);
    assert(piece_index(Piece::King, Color::Black) == 11);
}

impl Default for Board {
    fn default() -> (board: Board)
        ensures
            board@ == initial_position(),
            board.history@.len() == 0,
            board.wf(),
    {
        Board::new()
    }
}

impl Board {
    /// The invariant of a board: the position's invariant, now and in every
    /// record of the history.
    pub open spec fn wf(&self) -> bool {
        &&& self@.wf()
        &&& forall|i: int| 0 <= i < self.history@.len() ==> (#[trigger] self.history@[i])@.wf()
    }

    /// The standard starting position, with no move made.
    pub fn new() -> (board: Board)
        ensures
            board@ == initial_position(),
            board.history@.len() == 0,
            board.wf(),
    {
        let board = Board {
            pieces: [
                0x0000_0000_0000_FF00u64,
                0x0000_0000_0000_0042u64,
                0x0000_0000_0000_0024u64,
                0x0000_0000_0000_0081u64,
                0x0000_0000_0000_0008u64,
                0x0000_0000_0000_0010u64,
                0x00FF_0000_0000_0000u64,
                0x4200_0000_0000_0000u64,
                0x2400_0000_0000_0000u64,
                0x8100_0000_0000_0000u64,
                0x0800_0000_0000_0000u64,
                0x1000_0000_0000_0000u64,
            ],
            occupancy: [0x0000_0000_0000_FFFFu64, 0xFFFF_0000_0000_0000u64],
            side_to_move: Color::White,
            castling_rights: 15,
            en_passant: None,
            halfmove_clock: 0,
            fullmove_number: 1,
            history: Vec::new(),
        };
        proof {
            lemma_initial_position_wf();
            assert(board@.pieces =~= initial_position().pieces);
            assert(board@.occupancy =~= initial_position().occupancy);
        }
        board
    }

    /// The bitboard index of a kind of piece of one side.
    pub fn get_piece_index(&self, piece: Piece, color: Color) -> (index: usize)
        ensures
            index == piece_index(piece, color),
            index < 12,
    {
        match color {
            Color::White => piece.to_index(),
            Color::Black => piece.to_index() + 6,
        }
    }

    /// The kind of piece with ordinal `index`.
    pub fn index_to_piece(&self, index: usize) -> (piece: Piece)
        requires
            index < 6,
        ensures
            piece.ordinal() == index,
            Piece::of_ordinal(index as nat) == Some(piece),
    {
        match index {
            0 => Piece::Pawn,
            1 => Piece::Knight,
            2 => Piece::Bishop,
            3 => Piece::Rook,
            4 => Piece::Queen,
            _ => Piece::King,
        }
    }

    /// Recomputes both occupancy bitboards from the piece bitboards.
    pub fn update_occupancy(&mut self)
        ensures
            final(self)@.occupancy_in_step(),
            final(self)@ == (Position {
                occupancy: seq![
                    union_of_six(old(self)@.pieces, 0),
                    union_of_six(old(self)@.pieces, 6),
                ],
                ..old(self)@
            }),
            final(self).history == old(self).history,
    {
        let white: u64 = self.pieces[0] | self.pieces[1] | self.pieces[2] | self.pieces[3]
            | self.pieces[4] | self.pieces[5];
        let black: u64 = self.pieces[6] | self.pieces[7] | self.pieces[8] | self.pieces[9]
            | self.pieces[10] | self.pieces[11];
        self.occupancy = [white, black];
        proof {
            assert(self@.occupancy =~= seq![
                union_of_six(old(self)@.pieces, 0),
                union_of_six(old(self)@.pieces, 6),
            ]);
        }
    }

    /// The bitboard of both sides' pieces together.
    pub fn occupancy(&self) -> (all: Bitboard)
        ensures
            all == self@.all_occupied(),
    {
        self.occupancy[0] | self.occupancy[1]
    }

    /// Whether any piece stands on `square`.
    pub fn is_occupied(&self, square: Square) -> (occupied: bool)
        ensures
            occupied == self@.occupied(square.index()),
    {
        let all_pieces: u64 = self.occupancy[0] | self.occupancy[1];
        is_bit_set(all_pieces, square.to_index())
    }

    /// Whether a piece of `color` stands on `square`.
    pub fn is_occupied_by_friendly(&self, square: Square, color: Color) -> (held: bool)
        ensures
            held == self@.held_by(square.index(), color),
    {
        is_bit_set(self.occupancy[color.to_index()], square.to_index())
    }

    /// Whether a piece of the side opposing `color` stands on `square`.
    pub fn is_occupied_by_opponent(&self, square: Square, color: Color) -> (held: bool)
        ensures
            held == self@.held_by(square.index(), color.other()),
    {
        is_bit_set(self.occupancy[color.opponent().to_index()], square.to_index())
    }

    /// The pawns of one side.
    pub fn pawns(&self, color: Color) -> (pawns: Bitboard)
        ensures
            pawns == self@.pieces[piece_index(Piece::Pawn, color)],
    {
        self.pieces[self.get_piece_index(Piece::Pawn, color)]
    }

    /// How many pieces of one kind a side has.
    pub fn piece_count(&self, piece: Piece, color: Color) -> (count: usize)
        ensures
            count == self@.count(piece, color),
            count <= 64,
    {
        let piece_index = self.get_piece_index(piece, color);
        count_bits(self.pieces[piece_index]) as usize
    }

    /// The piece on `square` and its side, or `None` for an empty square.
    pub fn get_piece_at_square(&self, square: Square) -> (found: Option<(Piece, Color)>)
        ensures
            found == self@.occupant(square.index()),
    {
        let index = square.to_index();
        let mut i: usize = 0;
        while i < 12
            invariant
                i <= 12,
                index == square.index(),
                first_holder(self@.pieces, index as nat, 0) == first_holder(
                    self@.pieces,
                    index as nat,
                    i as nat,
                ),
            decreases 12 - i,
        {
            if is_bit_set(self.pieces[i], index) {
                let color = if i < 6 {
                    Color::White
                } else {
                    Color::Black
                };
                return Some((self.index_to_piece(i % 6), color));
            }
            i += 1;
        }
        None
    }
}

} // verus!
