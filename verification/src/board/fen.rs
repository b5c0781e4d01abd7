//! Reading a position from its six-field text: piece placement, side to
//! move, castling rights, en-passant target, half-move clock and full-move
//! number.
//!
//! [`fen_position`] says which position a text describes, if any; the text
//! is read as bytes. [`Board::from_fen`] returns that position, or
//! `InvalidPositionEncoding` where the text describes none.

use crate::bitboard::{bit_at, lemma_empty, Bitboard};
use crate::board::move_gen::{apart, alone, lemma_placed_apart, placed};
use crate::board::{piece_index, union_of_six, Board, Position};
use crate::error::ChessError;
use crate::piece::{Color, Piece};
use crate::square::{named_index, Square};
use vstd::prelude::*;
use vstd::string::*;

verus! {

/// Whether a byte is white space between fields.
pub open spec fn is_space(byte: u8) -> bool {
    byte == 32 || (9 <= byte <= 13)
}

/// The fields that are complete after the first `count` bytes, and the
/// field that is being read.
pub open spec fn fields_within(bytes: Seq<u8>, count: nat) -> (Seq<Seq<u8>>, Seq<u8>)
    decreases count,
{
    if count == 0 || count > bytes.len() {
        (Seq::empty(), Seq::empty())
    } else {
        let before = fields_within(bytes, (count - 1) as nat);
        let byte = bytes[count - 1];
        if is_space(byte) {
            if before.1.len() > 0 {
                (before.0.push(before.1), Seq::empty())
            } else {
                before
            }
        } else {
            (before.0, before.1.push(byte))
        }
    }
}

/// The fields of a text: its runs of bytes that are not white space.
pub open spec fn fields_of(bytes: Seq<u8>) -> Seq<Seq<u8>> {
    let read = fields_within(bytes, bytes.len());
    if read.1.len() > 0 {
        read.0.push(read.1)
    } else {
        read.0
    }
}

/// The kind and side that a piece letter stands for: upper case for White,
/// lower case for Black.
pub open spec fn piece_of_letter(byte: u8) -> Option<(Piece, Color)> {
    if byte == 80 {
        Some((Piece::Pawn, Color::White))
    } else if byte == 78 {
        Some((Piece::Knight, Color::White))
    } else if byte == 66 {
        Some((Piece::Bishop, Color::White))
    } else if byte == 82 {
        Some((Piece::Rook, Color::White))
    } else if byte == 81 {
        Some((Piece::Queen, Color::White))
    } else if byte == 75 {
        Some((Piece::King, Color::White))
    } else if byte == 112 {
        Some((Piece::Pawn, Color::Black))
    } else if byte == 110 {
        Some((Piece::Knight, Color::Black))
    } else if byte == 98 {
        Some((Piece::Bishop, Color::Black))
    } else if byte == 114 {
        Some((Piece::Rook, Color::Black))
    } else if byte == 113 {
        Some((Piece::Queen, Color::Black))
    } else if byte == 107 {
        Some((Piece::King, Color::Black))
    } else {
        None
    }
}

/// Where the reading of a piece placement stands: the pieces placed so far,
/// and the rank and file of the square that comes next.
pub struct Placing {
    pub pieces: Seq<Bitboard>,
    pub rank: int,
    pub file: int,
}

/// The reading of a piece placement before its first byte: no piece, and
/// the first square of the eighth rank next.
pub open spec fn placing_start() -> Placing {
    Placing { pieces: Seq::new(12, |i: int| 0u64), rank: 7, file: 0 }
}

/// The reading after one more byte, or `None` if the byte does not fit: a
/// slash ends a full rank that is not the last, a digit from 1 to 8 skips as
/// many squares of the rank, and a piece letter puts its piece on the next
/// square. A side has one king at most.
pub open spec fn placing_step(state: Placing, byte: u8) -> Option<Placing> {
    if byte == 47 {
        if state.file == 8 && state.rank > 0 {
            Some(Placing { rank: state.rank - 1, file: 0, ..state })
        } else {
            None
        }
    } else if 49 <= byte <= 56 {
        if state.file + (byte - 48) <= 8 {
            Some(Placing { file: state.file + (byte - 48), ..state })
        } else {
            None
        }
    } else {
        match piece_of_letter(byte) {
            Some((piece, color)) => if state.file < 8 && !(piece == Piece::King
                && state.pieces[piece_index(piece, color)] != 0) {
                Some(
                    Placing {
                        pieces: placed(
                            state.pieces,
                            piece_index(piece, color),
                            (state.rank * 8 + state.file) as nat,
                        ),
                        file: state.file + 1,
                        ..state
                    },
                )
            } else {
                None
            },
            None => None,
        }
    }
}

/// The reading of a piece placement after its first `count` bytes.
pub open spec fn placing_within(bytes: Seq<u8>, count: nat) -> Option<Placing>
    decreases count,
{
    if count == 0 || count > bytes.len() {
        Some(placing_start())
    } else {
        match placing_within(bytes, (count - 1) as nat) {
            Some(state) => placing_step(state, bytes[count - 1]),
            None => None,
        }
    }
}

/// The piece bitboards that a piece placement describes: eight full ranks,
/// from the eighth to the first.
pub open spec fn placement_of(bytes: Seq<u8>) -> Option<Seq<Bitboard>> {
    match placing_within(bytes, bytes.len()) {
        Some(state) => if state.rank == 0 && state.file == 8 {
            Some(state.pieces)
        } else {
            None
        },
        None => None,
    }
}

/// The side that the second field names: `w` or `b`.
pub open spec fn side_of(bytes: Seq<u8>) -> Option<Color> {
    if bytes.len() == 1 && bytes[0] == 119 {
        Some(Color::White)
    } else if bytes.len() == 1 && bytes[0] == 98 {
        Some(Color::Black)
    } else {
        None
    }
}

/// The castling right that a letter names: `K` 1, `Q` 2, `k` 4, `q` 8.
pub open spec fn right_of_letter(byte: u8) -> Option<u8> {
    if byte == 75 {
        Some(1u8)
    } else if byte == 81 {
        Some(2u8)
    } else if byte == 107 {
        Some(4u8)
    } else if byte == 113 {
        Some(8u8)
    } else {
        None
    }
}

/// The rights `held` with the right `right` added; `held` is below 16 and
/// `right` is one of 1, 2, 4 and 8.
pub open spec fn with_right(held: u8, right: u8) -> u8 {
    if (held / right) % 2 == 1 {
        held
    } else {
        (held + right) as u8
    }
}

/// The castling rights that the first `count` letters name.
pub open spec fn rights_within(bytes: Seq<u8>, count: nat) -> Option<u8>
    decreases count,
{
    if count == 0 || count > bytes.len() {
        Some(0u8)
    } else {
        match (rights_within(bytes, (count - 1) as nat), right_of_letter(bytes[count - 1])) {
            (Some(held), Some(right)) => Some(with_right(held, right)),
            _ => None,
        }
    }
}

/// The castling rights that the third field names: a dash for none, or
/// letters of `KQkq`.
pub open spec fn rights_of(bytes: Seq<u8>) -> Option<u8> {
    if bytes.len() == 1 && bytes[0] == 45 {
        Some(0u8)
    } else {
        rights_within(bytes, bytes.len())
    }
}

/// The en-passant target that the fourth field names: a dash for none, or
/// the name of a square.
pub open spec fn target_of(bytes: Seq<u8>) -> Option<Option<Square>> {
    if bytes.len() == 1 && bytes[0] == 45 {
        Some(None)
    } else if bytes.len() == 2 {
        match named_index(bytes[0], bytes[1]) {
            Some(index) => Some(Some(Square::at(index))),
            None => None,
        }
    } else {
        None
    }
}

/// The number that the first `count` digits write, if it fits 32 bits.
pub open spec fn digits_within(bytes: Seq<u8>, count: nat) -> Option<nat>
    decreases count,
{
    if count == 0 || count > bytes.len() {
        Some(0nat)
    } else {
        match digits_within(bytes, (count - 1) as nat) {
            Some(value) => {
                let byte = bytes[count - 1];
                if 48 <= byte <= 57 && value * 10 + (byte - 48) <= u32::MAX {
                    Some((value * 10 + (byte - 48)) as nat)
                } else {
                    None
                }
            },
            None => None,
        }
    }
}

/// The number that a field writes in decimal digits, if it fits 32 bits.
pub open spec fn number_of(bytes: Seq<u8>) -> Option<u32> {
    if bytes.len() == 0 {
        None
    } else {
        match digits_within(bytes, bytes.len()) {
            Some(value) => Some(value as u32),
            None => None,
        }
    }
}

/// The position that a text describes: six fields, each well formed.
pub open spec fn fen_position(bytes: Seq<u8>) -> Option<Position> {
    let fields = fields_of(bytes);
    if fields.len() != 6 {
        None
    } else {
        match (
            placement_of(fields[0]),
            side_of(fields[1]),
            rights_of(fields[2]),
            target_of(fields[3]),
            number_of(fields[4]),
            number_of(fields[5]),
        ) {
            (
                Some(pieces),
                Some(side_to_move),
                Some(castling_rights),
                Some(en_passant),
                Some(halfmove_clock),
                Some(fullmove_number),
            ) => Some(
                Position {
                    pieces,
                    occupancy: seq![union_of_six(pieces, 0), union_of_six(pieces, 6)],
                    side_to_move,
                    castling_rights,
                    en_passant,
                    halfmove_clock,
                    fullmove_number,
                },
            ),
            _ => None,
        }
    }
}

/// Whether square `square` comes before the square on `rank` and `file` in
/// the order of a piece placement: from the eighth rank down, and along
/// each rank from the a-file.
pub open spec fn read_before(square: nat, rank: int, file: int) -> bool {
    square < 64 && (square / 8 > rank || (square / 8 == rank && (square % 8) < file))
}

/// What holds of the pieces while a placement is read: no square holds two,
/// no side has two kings, and every piece stands on a square already read.
pub open spec fn placing_sound(state: Placing) -> bool {
    &&& state.pieces.len() == 12
    &&& 0 <= state.rank <= 7
    &&& 0 <= state.file <= 8
    &&& apart(state.pieces)
    &&& alone(state.pieces, 5)
    &&& alone(state.pieces, 11)
    &&& forall|i: int, s: nat|
        0 <= i < 12 && #[trigger] bit_at(state.pieces[i], s) ==> read_before(
            s,
            state.rank,
            state.file,
        )
}

/// Reading one more byte of a placement keeps the pieces sound.
pub proof fn lemma_placing_step_sound(state: Placing, byte: u8)
    requires
        placing_sound(state),
        placing_step(state, byte) is Some,
    ensures
        placing_sound(placing_step(state, byte)->0),
{
    let after = placing_step(state, byte)->0;
    if byte == 47 {
    } else if 49 <= byte <= 56 {
    } else {
        let found = piece_of_letter(byte)->0;
        let piece = found.0;
        let color = found.1;
        let index = piece_index(piece, color);
        let square = (state.rank * 8 + state.file) as nat;
        assert(square < 64);
        assert(square / 8 == state.rank && square % 8 == state.file);
        assert forall|i: int| 0 <= i < 12 implies !#[trigger] bit_at(state.pieces[i], square) by {
            if bit_at(state.pieces[i], square) {
                assert(read_before(square, state.rank, state.file));
            }
        }
        lemma_placed_apart(state.pieces, index, square);
        lemma_empty();
        assert forall|k: int| (k == 5 || k == 11) implies alone(after.pieces, k) by {
            if k == index {
                assert(state.pieces[k] == 0);
            }
        }
        assert forall|i: int, s: nat| 0 <= i < 12 && #[trigger] bit_at(
            after.pieces[i],
            s,
        ) implies read_before(s, after.rank, after.file) by {
            if i == index && s == square {
            } else {
                assert(bit_at(state.pieces[i], s));
                assert(read_before(s, state.rank, state.file));
            }
        }
    }
}

/// Adding a castling right leaves four bits.
pub proof fn lemma_with_right_bound(held: u8, right: u8)
    requires
        held < 16,
        right == 1 || right == 2 || right == 4 || right == 8,
    ensures
        with_right(held, right) < 16,
{
    if right == 1 {
        assert((held / 1) % 2 == 0 ==> held + 1 < 16);
    } else if right == 2 {
        assert((held / 2) % 2 == 0 ==> held + 2 < 16);
    } else if right == 4 {
        assert((held / 4) % 2 == 0 ==> held + 4 < 16);
    } else {
        assert((held / 8) % 2 == 0 ==> held + 8 < 16);
    }
}

/// The bytes of a text.
fn text_bytes(text: &str) -> (bytes: Vec<u8>)
    ensures
        bytes@ == text.spec_bytes(),
{
    text.as_bytes_vec()
}

/// Splits a text into its fields.
pub fn split_fields(bytes: &Vec<u8>) -> (fields: Vec<Vec<u8>>)
    ensures
        fields@.len() == fields_of(bytes@).len(),
        forall|k: int| 0 <= k < fields@.len() ==> (#[trigger] fields@[k])@ == fields_of(bytes@)[k],
{
    let mut fields: Vec<Vec<u8>> = Vec::new();
    let mut current: Vec<u8> = Vec::new();
    let mut i: usize = 0;
    while i < bytes.len()
        invariant
            i <= bytes@.len(),
            fields@.len() == fields_within(bytes@, i as nat).0.len(),
            forall|k: int|
                0 <= k < fields@.len() ==> (#[trigger] fields@[k])@ == fields_within(
                    bytes@,
                    i as nat,
                ).0[k],
            current@ == fields_within(bytes@, i as nat).1,
        decreases bytes@.len() - i,
    {
        let byte = bytes[i];
        if byte == 32 || (9 <= byte && byte <= 13) {
            if current.len() > 0 {
                fields.push(current);
                current = Vec::new();
            }
        } else {
            current.push(byte);
        }
        i += 1;
    }
    if current.len() > 0 {
        fields.push(current);
    }
    fields
}

/// The kind and side that a piece letter stands for.
fn letter_piece(byte: u8) -> (piece: Option<(Piece, Color)>)
    ensures
        piece == piece_of_letter(byte),
{
    match byte {
        80 => Some((Piece::Pawn, Color::White)),
        78 => Some((Piece::Knight, Color::White)),
        66 => Some((Piece::Bishop, Color::White)),
        82 => Some((Piece::Rook, Color::White)),
        81 => Some((Piece::Queen, Color::White)),
        75 => Some((Piece::King, Color::White)),
        112 => Some((Piece::Pawn, Color::Black)),
        110 => Some((Piece::Knight, Color::Black)),
        98 => Some((Piece::Bishop, Color::Black)),
        114 => Some((Piece::Rook, Color::Black)),
        113 => Some((Piece::Queen, Color::Black)),
        107 => Some((Piece::King, Color::Black)),
        _ => None,
    }
}

/// Reads a number in decimal digits.
pub fn read_number(bytes: &Vec<u8>) -> (number: Option<u32>)
    ensures
        number == number_of(bytes@),
{
    if bytes.len() == 0 {
        return None;
    }
    let mut value: u64 = 0;
    let mut i: usize = 0;
    while i < bytes.len()
        invariant
            i <= bytes@.len(),
            value <= u32::MAX,
            digits_within(bytes@, i as nat) == Some(value as nat),
        decreases bytes@.len() - i,
    {
        let byte = bytes[i];
        if byte < 48 || byte > 57 {
            proof {
                lemma_digits_fail(bytes@, (i + 1) as nat, bytes@.len());
            }
            return None;
        }
        let next: u64 = value * 10 + (byte - 48) as u64;
        if next > 4294967295 {
            proof {
                lemma_digits_fail(bytes@, (i + 1) as nat, bytes@.len());
            }
            return None;
        }
        value = next;
        i += 1;
    }
    Some(value as u32)
}

/// Once the digits fail, they fail for every longer prefix.
pub proof fn lemma_digits_fail(bytes: Seq<u8>, failed: nat, count: nat)
    requires
        failed <= count <= bytes.len(),
        digits_within(bytes, failed) is None,
    ensures
        digits_within(bytes, count) is None,
    decreases count - failed,
{
    if failed < count {
        lemma_digits_fail(bytes, failed, (count - 1) as nat);
    }
}

/// Once the reading of a placement fails, it fails for every longer prefix.
pub proof fn lemma_placing_fail(bytes: Seq<u8>, failed: nat, count: nat)
    requires
        failed <= count <= bytes.len(),
        placing_within(bytes, failed) is None,
    ensures
        placing_within(bytes, count) is None,
    decreases count - failed,
{
    if failed < count {
        lemma_placing_fail(bytes, failed, (count - 1) as nat);
    }
}

/// Once the reading of castling rights fails, it fails for every longer
/// prefix.
pub proof fn lemma_rights_fail(bytes: Seq<u8>, failed: nat, count: nat)
    requires
        failed <= count <= bytes.len(),
        rights_within(bytes, failed) is None,
    ensures
        rights_within(bytes, count) is None,
    decreases count - failed,
{
    if failed < count {
        lemma_rights_fail(bytes, failed, (count - 1) as nat);
    }
}

/// Reads the side to move.
pub fn read_side(bytes: &Vec<u8>) -> (side: Option<Color>)
    ensures
        side == side_of(bytes@),
{
    if bytes.len() == 1 && bytes[0] == 119 {
        Some(Color::White)
    } else if bytes.len() == 1 && bytes[0] == 98 {
        Some(Color::Black)
    } else {
        None
    }
}

/// Reads the castling rights.
pub fn read_rights(bytes: &Vec<u8>) -> (rights: Option<u8>)
    ensures
        rights == rights_of(bytes@),
        rights is Some ==> rights->0 < 16,
{
    if bytes.len() == 1 && bytes[0] == 45 {
        return Some(0);
    }
    let mut held: u8 = 0;
    let mut i: usize = 0;
    while i < bytes.len()
        invariant
            i <= bytes@.len(),
            held < 16,
            !(bytes@.len() == 1 && bytes@[0] == 45),
            rights_within(bytes@, i as nat) == Some(held),
        decreases bytes@.len() - i,
    {
        let right: u8 = match bytes[i] {
            75 => 1,
            81 => 2,
            107 => 4,
            113 => 8,
            _ => {
                proof {
                    lemma_rights_fail(bytes@, (i + 1) as nat, bytes@.len());
                }
                return None;
            },
        };
        proof {
            lemma_with_right_bound(held, right);
        }
        if (held / right) % 2 == 0 {
            held = held + right;
        }
        i += 1;
    }
    Some(held)
}

/// Reads the en-passant target.
pub fn read_target(bytes: &Vec<u8>) -> (target: Option<Option<Square>>)
    ensures
        target == target_of(bytes@),
{
    if bytes.len() == 1 && bytes[0] == 45 {
        Some(None)
    } else if bytes.len() == 2 {
        match Square::from_codes(bytes[0], bytes[1]) {
            Some(square) => Some(Some(square)),
            None => None,
        }
    } else {
        None
    }
}

impl Board {
    /// A board without pieces: White to move, no castling rights, clocks at
    /// their start.
    pub fn empty() -> (board: Board)
        ensures
            board@ == (Position {
                pieces: placing_start().pieces,
                occupancy: seq![0u64, 0u64],
                side_to_move: Color::White,
                castling_rights: 0,
                en_passant: None,
                halfmove_clock: 0,
                fullmove_number: 1,
            }),
            board.history@.len() == 0,
    {
        let board = Board {
            pieces: [0u64; 12],
            occupancy: [0u64; 2],
            side_to_move: Color::White,
            castling_rights: 0,
            en_passant: None,
            halfmove_clock: 0,
            fullmove_number: 1,
            history: Vec::new(),
        };
        proof {
            assert(board@.pieces =~= placing_start().pieces);
            assert(board@.occupancy =~= seq![0u64, 0u64]);
        }
        board
    }

    /// Puts a piece on `square` and brings the occupancy up to date.
    pub fn set_piece(&mut self, square: Square, piece: Piece, color: Color)
        ensures
            final(self)@ == (Position {
                pieces: placed(old(self)@.pieces, piece_index(piece, color), square.index()),
                occupancy: seq![
                    union_of_six(
                        placed(old(self)@.pieces, piece_index(piece, color), square.index()),
                        0,
                    ),
                    union_of_six(
                        placed(old(self)@.pieces, piece_index(piece, color), square.index()),
                        6,
                    ),
                ],
                ..old(self)@
            }),
            final(self).history == old(self).history,
    {
        let piece_index = self.get_piece_index(piece, color);
        self.place(piece_index, square.to_index());
        self.update_occupancy();
    }

    /// Reads a piece placement onto a board without pieces.
    fn read_placement(&mut self, bytes: &Vec<u8>) -> (read: bool)
        requires
            old(self)@.pieces == placing_start().pieces,
        ensures
            read == placement_of(bytes@) is Some,
            read ==> final(self)@ == (Position {
                pieces: placement_of(bytes@)->0,
                occupancy: seq![
                    union_of_six(placement_of(bytes@)->0, 0),
                    union_of_six(placement_of(bytes@)->0, 6),
                ],
                ..old(self)@
            }),
            read ==> final(self)@.pieces.len() == 12 && apart(final(self)@.pieces) && alone(
                final(self)@.pieces,
                5,
            ) && alone(final(self)@.pieces, 11),
            final(self).history == old(self).history,
    {
        let mut rank: usize = 7;
        let mut file: usize = 0;
        let mut i: usize = 0;
        proof {
            lemma_empty();
            assert(placing_sound(placing_start()));
        }
        self.update_occupancy();
        while i < bytes.len()
            invariant
                i <= bytes@.len(),
                rank <= 7,
                file <= 8,
                self.history == old(self).history,
                placing_within(bytes@, i as nat) == Some(
                    Placing { pieces: self@.pieces, rank: rank as int, file: file as int },
                ),
                placing_sound(
                    Placing { pieces: self@.pieces, rank: rank as int, file: file as int },
                ),
                self@ == (Position {
                    pieces: self@.pieces,
                    occupancy: seq![union_of_six(self@.pieces, 0), union_of_six(self@.pieces, 6)],
                    ..old(self)@
                }),
            decreases bytes@.len() - i,
        {
            let byte = bytes[i];
            let ghost state = Placing {
                pieces: self@.pieces,
                rank: rank as int,
                file: file as int,
            };
            if byte == 47 {
                if file == 8 && rank > 0 {
                    rank = rank - 1;
                    file = 0;
                } else {
                    proof {
                        lemma_placing_fail(bytes@, (i + 1) as nat, bytes@.len());
                    }
                    return false;
                }
            } else if 49 <= byte && byte <= 56 {
                let skip: usize = (byte - 48) as usize;
                if file + skip <= 8 {
                    file = file + skip;
                } else {
                    proof {
                        lemma_placing_fail(bytes@, (i + 1) as nat, bytes@.len());
                    }
                    return false;
                }
            } else {
                match letter_piece(byte) {
                    Some((piece, color)) => {
                        let index = self.get_piece_index(piece, color);
                        if file < 8 && !(piece == Piece::King && self.pieces[index] != 0) {
                            self.set_piece(Square::new(rank, file), piece, color);
                            file = file + 1;
                        } else {
                            proof {
                                lemma_placing_fail(bytes@, (i + 1) as nat, bytes@.len());
                            }
                            return false;
                        }
                    },
                    None => {
                        proof {
                            lemma_placing_fail(bytes@, (i + 1) as nat, bytes@.len());
                        }
                        return false;
                    },
                }
            }
            proof {
                lemma_placing_step_sound(state, byte);
            }
            i += 1;
        }
        rank == 0 && file == 8
    }

    /// Reads a position from its six-field text. `InvalidPositionEncoding`
    /// if the text does not have six fields, or a field is not well formed.
    pub fn from_fen(fen: &str) -> (board: Result<Board, ChessError>)
        ensures
            match fen_position(fen.spec_bytes()) {
                Some(position) => board is Ok && board->Ok_0@ == position
                    && board->Ok_0.history@.len() == 0 && board->Ok_0.wf(),
                None => board is Err && board->Err_0 == ChessError::InvalidPositionEncoding,
            },
    {
        let bytes = text_bytes(fen);
        let fields = split_fields(&bytes);
        if fields.len() != 6 {
            return Err(ChessError::InvalidPositionEncoding);
        }
        let mut board = Board::empty();
        if !board.read_placement(&fields[0]) {
            return Err(ChessError::InvalidPositionEncoding);
        }
        let side = read_side(&fields[1]);
        let rights = read_rights(&fields[2]);
        let target = read_target(&fields[3]);
        let halfmove = read_number(&fields[4]);
        let fullmove = read_number(&fields[5]);
        match (side, rights, target, halfmove, fullmove) {
            (
                Some(side_to_move),
                Some(castling_rights),
                Some(en_passant),
                Some(halfmove_clock),
                Some(fullmove_number),
            ) => {
                board.side_to_move = side_to_move;
                board.castling_rights = castling_rights;
                board.en_passant = en_passant;
                board.halfmove_clock = halfmove_clock;
                board.fullmove_number = fullmove_number;
                proof {
                    let position = board@;
                    assert forall|a: nat, b: nat| #[trigger]
                        position.has(a, Piece::King, Color::White) && #[trigger] position.has(
                            b,
                            Piece::King,
                            Color::White,
                        ) implies a == b by {
                        assert(bit_at(position.pieces[5], a));
                        assert(bit_at(position.pieces[5], b));
                    }
                    assert forall|a: nat, b: nat| #[trigger]
                        position.has(a, Piece::King, Color::Black) && #[trigger] position.has(
                            b,
                            Piece::King,
                            Color::Black,
                        ) implies a == b by {
                        assert(bit_at(position.pieces[11], a));
                        assert(bit_at(position.pieces[11], b));
                    }
                }
                Ok(board)
            },
            _ => Err(ChessError::InvalidPositionEncoding),
        }
    }
}

} // verus!
