//! Replaying moves written in algebraic notation, such as `e4`, `Nf3`,
//! `O-O` and `e8=Q`.
//!
//! A move text names the kind of piece, the square it goes to, and at most
//! a hint at where it comes from. [`move_shape`] takes the text apart;
//! [`Position::first_source`] finds the square the piece comes from: the
//! first of its kind, in ascending order, that may go to the named square
//! and fits the hint.

use crate::bitboard::{bit_at, is_bit_set, list_members, member_list};
use crate::board::captures::lemma_without_wf;
use crate::board::fen::{fields_of, split_fields};
use crate::board::generate::squares_at;
use crate::board::move_gen::{lemma_placed_apart, lemma_vacated_within, placed, vacated};
use crate::board::{initial_position, piece_index, union_of_six, Board, Position};
use crate::error::ChessError;
use crate::piece::{Color, Piece};
use crate::square::{named_index, Square};
use vstd::prelude::*;
use vstd::string::*;

verus! {

/// A move text taken apart.
pub struct MoveShape {
    /// The kind of piece that moves.
    pub piece: Piece,
    /// The hint at the square it comes from: nothing, a file letter, a rank
    /// digit, or both.
    pub hint: Seq<u8>,
    /// The file letter of the square it goes to.
    pub file_code: u8,
    /// The rank digit of the square it goes to.
    pub rank_code: u8,
    /// The kind of piece a pawn becomes, if the text names one.
    pub promotion: Option<Piece>,
}

/// A move text taken apart, as read.
pub struct MoveText {
    pub piece: Piece,
    pub hint: Vec<u8>,
    pub file_code: u8,
    pub rank_code: u8,
    pub promotion: Option<Piece>,
}

impl View for MoveText {
    type V = MoveShape;

    open spec fn view(&self) -> MoveShape {
        MoveShape {
            piece: self.piece,
            hint: self.hint@,
            file_code: self.file_code,
            rank_code: self.rank_code,
            promotion: self.promotion,
        }
    }
}

/// The first position below `count` at which `byte` stands in `bytes`.
pub open spec fn first_index(bytes: Seq<u8>, byte: u8, count: nat) -> Option<nat>
    decreases count,
{
    if count == 0 || count > bytes.len() {
        None
    } else {
        match first_index(bytes, byte, (count - 1) as nat) {
            Some(i) => Some(i),
            None => if bytes[count - 1] == byte {
                Some((count - 1) as nat)
            } else {
                None
            },
        }
    }
}

/// The kind of piece that an upper-case letter names.
pub open spec fn kind_of_letter(byte: u8) -> Option<Piece> {
    if byte == 80 {
        Some(Piece::Pawn)
    } else if byte == 78 {
        Some(Piece::Knight)
    } else if byte == 66 {
        Some(Piece::Bishop)
    } else if byte == 82 {
        Some(Piece::Rook)
    } else if byte == 81 {
        Some(Piece::Queen)
    } else if byte == 75 {
        Some(Piece::King)
    } else {
        None
    }
}

/// The kind that a pawn may become by the letter after the equals sign: a
/// knight, a bishop, a rook or a queen.
pub open spec fn promotion_of_letter(byte: u8) -> Option<Piece> {
    match kind_of_letter(byte) {
        Some(piece) => if piece == Piece::Pawn || piece == Piece::King {
            None
        } else {
            Some(piece)
        },
        None => None,
    }
}

/// A hint without the capture mark `x` at its end.
pub open spec fn without_capture_mark(hint: Seq<u8>) -> Seq<u8> {
    if hint.len() > 0 && hint.last() == 120 {
        hint.drop_last()
    } else {
        hint
    }
}

/// The shape of a move whose text, after the piece letter and before the
/// promotion, is `body`: the last two bytes name the target square, and
/// what stands before them is the hint.
pub open spec fn body_shape(body: Seq<u8>, piece: Piece, promotion: Option<Piece>) -> Option<
    MoveShape,
> {
    if body.len() < 2 {
        None
    } else {
        Some(
            MoveShape {
                piece,
                hint: without_capture_mark(body.subrange(0, body.len() - 2)),
                file_code: body[body.len() - 2],
                rank_code: body[body.len() - 1],
                promotion,
            },
        )
    }
}

/// The shape of a move text, if it has one.
///
/// A text with an equals sign is a pawn's move with a promotion: the letter
/// after the sign names the new piece. A text of two bytes is a pawn's move
/// to the square it names. A longer text that begins with an upper-case
/// letter is the move of the piece that the letter names; any other is a
/// pawn's move.
pub open spec fn move_shape(bytes: Seq<u8>) -> Option<MoveShape> {
    match first_index(bytes, 61, bytes.len()) {
        Some(sign) => if sign + 1 < bytes.len() {
            match promotion_of_letter(bytes[sign as int + 1]) {
                Some(promotion) => body_shape(
                    bytes.subrange(0, sign as int),
                    Piece::Pawn,
                    Some(promotion),
                ),
                None => None,
            }
        } else {
            None
        },
        None => if bytes.len() == 2 {
            body_shape(bytes, Piece::Pawn, None)
        } else if bytes.len() >= 3 {
            if 65 <= bytes[0] <= 90 {
                match kind_of_letter(bytes[0]) {
                    Some(piece) => body_shape(bytes.subrange(1, bytes.len() as int), piece, None),
                    None => None,
                }
            } else {
                body_shape(bytes, Piece::Pawn, None)
            }
        } else {
            None
        },
    }
}

/// The text of castling on the king's side: `O-O`.
pub open spec fn is_short_castle(bytes: Seq<u8>) -> bool {
    bytes == seq![79u8, 45u8, 79u8]
}

/// The text of castling on the queen's side: `O-O-O`.
pub open spec fn is_long_castle(bytes: Seq<u8>) -> bool {
    bytes == seq![79u8, 45u8, 79u8, 45u8, 79u8]
}

impl Position {
    /// Whether the piece on `origin` is the one a move text means: it may go
    /// to `to`, and its square fits the hint.
    pub open spec fn is_source(
        self,
        origin: nat,
        piece: Piece,
        hint: Seq<u8>,
        to: Square,
        color: Color,
    ) -> bool {
        self.reaches(Square::at(origin), to, piece, color) && Square::at(origin).fits_hint(hint)
    }

    /// The first of the squares `origins`, from the `next` on, that is a
    /// source.
    pub open spec fn first_source_from(
        self,
        piece: Piece,
        hint: Seq<u8>,
        to: Square,
        color: Color,
        origins: Seq<nat>,
        next: nat,
    ) -> Option<Square>
        decreases origins.len() - next,
    {
        if next >= origins.len() {
            None
        } else if self.is_source(origins[next as int], piece, hint, to, color) {
            Some(Square::at(origins[next as int]))
        } else {
            self.first_source_from(piece, hint, to, color, origins, next + 1)
        }
    }

    /// The square that the piece of a move text comes from: the first
    /// square of a piece of its kind, in ascending order, that is a source.
    pub open spec fn first_source(self, piece: Piece, hint: Seq<u8>, to: Square, color: Color)
        -> Option<Square> {
        self.first_source_from(
            piece,
            hint,
            to,
            color,
            member_list(self.pieces[piece_index(piece, color)]),
            0,
        )
    }

    /// The move that a text means for `color`: where from, where to, and
    /// what a pawn becomes. `InvalidPositionEncoding` for a text without a
    /// shape, `InvalidSquareIndex` for one that names no square, and
    /// `NoPieceAtSquare` where no piece can make the move.
    pub open spec fn move_read(self, bytes: Seq<u8>, color: Color) -> Result<
        (Square, Square, Option<Piece>),
        ChessError,
    > {
        match move_shape(bytes) {
            None => Err(ChessError::InvalidPositionEncoding),
            Some(shape) => match named_index(shape.file_code, shape.rank_code) {
                None => Err(ChessError::InvalidSquareIndex),
                Some(index) => match self.first_source(
                    shape.piece,
                    shape.hint,
                    Square::at(index),
                    color,
                ) {
                    None => Err(ChessError::NoPieceAtSquare),
                    Some(from) => Ok((from, Square::at(index), shape.promotion)),
                },
            },
        }
    }

    /// The position after the piece of `color` on `square` has become a
    /// piece of another kind. Nothing changes if no piece of `color` stands
    /// there, or the kind is pawn or king.
    pub open spec fn promoted(self, square: Square, piece: Piece, color: Color) -> Position {
        if piece == Piece::Pawn || piece == Piece::King || !self.held_by(square.index(), color) {
            self
        } else {
            let pieces = placed(
                vacated(self.pieces, square.index()),
                piece_index(piece, color),
                square.index(),
            );
            Position {
                pieces,
                occupancy: seq![union_of_six(pieces, 0), union_of_six(pieces, 6)],
                ..self
            }
        }
    }

    /// The king's journey when the side to move castles: from its home
    /// square two files towards the wing.
    pub open spec fn castling_move(self, short: bool) -> (Square, Square) {
        if self.side_to_move == Color::White {
            (
                Square::E1,
                if short {
                    Square::G1
                } else {
                    Square::C1
                },
            )
        } else {
            (
                Square::E8,
                if short {
                    Square::G8
                } else {
                    Square::C8
                },
            )
        }
    }

    /// Whether the side to move may castle on the given wing: its king
    /// stands at home, and the move is a castling move.
    pub open spec fn may_castle(self, short: bool) -> bool {
        let journey = self.castling_move(short);
        self.has(journey.0.index(), Piece::King, self.side_to_move) && self.castling_rook(
            journey.0,
            journey.1,
            Piece::King,
            self.side_to_move,
        ) is Some
    }

    /// The position after the move that one text means has been replayed,
    /// or the failure to replay it.
    #[verifier::opaque]
    pub open spec fn after_text(self, bytes: Seq<u8>) -> Result<Position, ChessError> {
        if is_short_castle(bytes) || is_long_castle(bytes) {
            let short = is_short_castle(bytes);
            if self.may_castle(short) {
                Ok(
                    self.after_move(
                        self.castling_move(short).0,
                        self.castling_move(short).1,
                        Piece::King,
                        self.side_to_move,
                    ),
                )
            } else {
                Err(ChessError::NoPieceAtSquare)
            }
        } else {
            match self.move_read(bytes, self.side_to_move) {
                Err(e) => Err(e),
                Ok((from, to, promotion)) => match self.occupant(from.index()) {
                    None => Err(ChessError::NoPieceAtSquare),
                    Some((piece, _)) => {
                        let made = self.after_move(from, to, piece, self.side_to_move);
                        match promotion {
                            Some(kind) => Ok(made.promoted(to, kind, self.side_to_move)),
                            None => Ok(made),
                        }
                    },
                },
            }
        }
    }

    /// The position after the move that a text with white space around it
    /// means has been replayed, or the failure to replay it.
    pub open spec fn after_trimmed_text(self, bytes: Seq<u8>) -> Result<Position, ChessError> {
        if fields_of(bytes).len() == 1 {
            self.after_text(fields_of(bytes)[0])
        } else {
            Err(ChessError::InvalidPositionEncoding)
        }
    }

    /// The position after the first `count` of the move texts `texts` have
    /// been replayed, or the first failure.
    pub open spec fn after_texts(self, texts: Seq<Seq<u8>>, count: nat) -> Result<
        Position,
        ChessError,
    >
        decreases count,
    {
        if count == 0 || count > texts.len() {
            Ok(self)
        } else {
            match self.after_texts(texts, (count - 1) as nat) {
                Ok(position) => position.after_text(texts[count - 1]),
                Err(e) => Err(e),
            }
        }
    }
}

/// Promoting a piece keeps the invariant.
pub proof fn lemma_promoted_wf(position: Position, square: Square, piece: Piece, color: Color)
    requires
        position.wf(),
    ensures
        position.promoted(square, piece, color).wf(),
{
    let after = position.promoted(square, piece, color);
    if !(piece == Piece::Pawn || piece == Piece::King || !position.held_by(square.index(), color)) {
        square.lemma_index_at();
        let removed = position.without(square);
        lemma_without_wf(position, square);
        lemma_vacated_within(position.pieces, square.index());
        lemma_placed_apart(removed.pieces, piece_index(piece, color), square.index());
        assert(after.pieces[5] == removed.pieces[5]);
        assert(after.pieces[11] == removed.pieces[11]);
        assert forall|a: nat, b: nat| #[trigger]
            after.has(a, Piece::King, Color::White) && #[trigger] after.has(
                b,
                Piece::King,
                Color::White,
            ) implies a == b by {
            assert(removed.has(a, Piece::King, Color::White));
            assert(removed.has(b, Piece::King, Color::White));
        }
        assert forall|a: nat, b: nat| #[trigger]
            after.has(a, Piece::King, Color::Black) && #[trigger] after.has(
                b,
                Piece::King,
                Color::Black,
            ) implies a == b by {
            assert(removed.has(a, Piece::King, Color::Black));
            assert(removed.has(b, Piece::King, Color::Black));
        }
        assert forall|i: int, j: int, s: nat| 0 <= i < j < 12 implies !(#[trigger] bit_at(
            after.pieces[i],
            s,
        ) && #[trigger] bit_at(after.pieces[j], s)) by {
        }
    }
}

/// The kind of piece that an upper-case letter names.
fn letter_kind(byte: u8) -> (piece: Option<Piece>)
    ensures
        piece == kind_of_letter(byte),
{
    match byte {
        80 => Some(Piece::Pawn),
        78 => Some(Piece::Knight),
        66 => Some(Piece::Bishop),
        82 => Some(Piece::Rook),
        81 => Some(Piece::Queen),
        75 => Some(Piece::King),
        _ => None,
    }
}

/// The position of the first equals sign in a move text.
fn find_sign(bytes: &Vec<u8>) -> (sign: Option<usize>)
    ensures
        match first_index(bytes@, 61, bytes@.len()) {
            Some(i) => sign == Some(i as usize) && i < bytes@.len(),
            None => sign is None,
        },
        sign is Some ==> sign->0 < bytes@.len(),
{
    let mut i: usize = 0;
    while i < bytes.len()
        invariant
            i <= bytes@.len(),
            first_index(bytes@, 61, i as nat) is None,
        decreases bytes@.len() - i,
    {
        if bytes[i] == 61 {
            proof {
                lemma_first_index_stays(bytes@, 61, (i + 1) as nat, bytes@.len());
            }
            return Some(i);
        }
        i += 1;
    }
    None
}

/// Once a byte has been found, it stays found at the same position.
pub proof fn lemma_first_index_stays(bytes: Seq<u8>, byte: u8, found: nat, count: nat)
    requires
        found <= count <= bytes.len(),
        first_index(bytes, byte, found) is Some,
    ensures
        first_index(bytes, byte, count) == first_index(bytes, byte, found),
    decreases count - found,
{
    if found < count {
        lemma_first_index_stays(bytes, byte, found, (count - 1) as nat);
    }
}

/// Takes apart the part of a move text from `start` to `end`.
fn read_body(bytes: &Vec<u8>, start: usize, end: usize, piece: Piece, promotion: Option<Piece>)
    -> (text: Option<MoveText>)
    requires
        start <= end <= bytes@.len(),
    ensures
        match body_shape(bytes@.subrange(start as int, end as int), piece, promotion) {
            Some(shape) => text is Some && text->0@ == shape,
            None => text is None,
        },
{
    if end - start < 2 {
        return None;
    }
    let ghost body = bytes@.subrange(start as int, end as int);
    let mut stop: usize = end - 2;
    if stop > start && bytes[stop - 1] == 120 {
        stop = stop - 1;
    }
    let mut hint: Vec<u8> = Vec::new();
    let mut i: usize = start;
    while i < stop
        invariant
            start <= i <= stop <= end - 2,
            end <= bytes@.len(),
            hint@ == bytes@.subrange(start as int, i as int),
        decreases stop - i,
    {
        hint.push(bytes[i]);
        assert(hint@ =~= bytes@.subrange(start as int, i + 1));
        i += 1;
    }
    proof {
        let whole = body.subrange(0, body.len() - 2);
        assert(whole =~= bytes@.subrange(start as int, end - 2));
        assert(hint@ =~= without_capture_mark(whole));
    }
    Some(
        MoveText {
            piece,
            hint,
            file_code: bytes[end - 2],
            rank_code: bytes[end - 1],
            promotion,
        },
    )
}

/// Takes a move text apart.
pub fn read_move_text(bytes: &Vec<u8>) -> (text: Option<MoveText>)
    ensures
        match move_shape(bytes@) {
            Some(shape) => text is Some && text->0@ == shape,
            None => text is None,
        },
{
    let length = bytes.len();
    match find_sign(bytes) {
        Some(sign) => {
            if sign < length && sign + 1 < length {
                match letter_kind(bytes[sign + 1]) {
                    Some(piece) => {
                        if piece == Piece::Pawn || piece == Piece::King {
                            None
                        } else {
                            read_body(bytes, 0, sign, Piece::Pawn, Some(piece))
                        }
                    },
                    None => None,
                }
            } else {
                None
            }
        },
        None => {
            if bytes.len() == 2 {
                assert(bytes@.subrange(0, 2) =~= bytes@);
                read_body(bytes, 0, 2, Piece::Pawn, None)
            } else if bytes.len() >= 3 {
                if 65 <= bytes[0] && bytes[0] <= 90 {
                    match letter_kind(bytes[0]) {
                        Some(piece) => read_body(bytes, 1, bytes.len(), piece, None),
                        None => None,
                    }
                } else {
                    assert(bytes@.subrange(0, bytes@.len() as int) =~= bytes@);
                    read_body(bytes, 0, bytes.len(), Piece::Pawn, None)
                }
            } else {
                None
            }
        },
    }
}

impl Board {
    /// The squares of the pieces of one kind and side, in ascending order.
    pub fn get_potential_squares(&self, piece: Piece, color: Color) -> (squares: Vec<Square>)
        ensures
            squares@ == squares_at(member_list(self@.pieces[piece_index(piece, color)])),
    {
        let bitboard = self.pieces[self.get_piece_index(piece, color)];
        let members = list_members(bitboard);
        let ghost wanted = squares_at(member_list(bitboard));
        let mut squares: Vec<Square> = Vec::new();
        let mut i: usize = 0;
        while i < members.len()
            invariant
                i <= members@.len(),
                members@.len() == member_list(bitboard).len(),
                wanted == squares_at(member_list(bitboard)),
                forall|k: int|
                    0 <= k < members@.len() ==> #[trigger] members@[k] == member_list(bitboard)[k],
                forall|k: int| 0 <= k < members@.len() ==> #[trigger] members@[k] < 64,
                squares@ == wanted.subrange(0, i as int),
            decreases members@.len() - i,
        {
            squares.push(Square::from_index(members[i]));
            assert(squares@ =~= wanted.subrange(0, i + 1));
            i += 1;
        }
        assert(wanted.subrange(0, i as int) =~= wanted);
        squares
    }

    /// The square that a piece of the given kind comes from when it goes to
    /// `to_square`: the first, in ascending order, that may go there and
    /// fits the hint.
    pub fn find_source_square(
        &self,
        piece: Piece,
        from_hint: &Vec<u8>,
        to_square: Square,
        color: Color,
    ) -> (source: Option<Square>)
        ensures
            source == self@.first_source(piece, from_hint@, to_square, color),
    {
        let bitboard = self.pieces[self.get_piece_index(piece, color)];
        let members = list_members(bitboard);
        let ghost origins = member_list(bitboard);
        let mut i: usize = 0;
        while i < members.len()
            invariant
                i <= members@.len(),
                members@.len() == origins.len(),
                forall|k: int| 0 <= k < members@.len() ==> #[trigger] members@[k] == origins[k],
                forall|k: int| 0 <= k < members@.len() ==> #[trigger] members@[k] < 64,
                self@.first_source_from(piece, from_hint@, to_square, color, origins, i as nat)
                    == self@.first_source_from(piece, from_hint@, to_square, color, origins, 0),
                origins == member_list(self@.pieces[piece_index(piece, color)]),
            decreases members@.len() - i,
        {
            let square = Square::from_index(members[i]);
            if self.is_valid_move(square, to_square, piece, color) && square.fits(from_hint) {
                return Some(square);
            }
            i += 1;
        }
        None
    }

    /// The square that a pawn comes from when it goes to `to_square`.
    pub fn find_pawn_source_square(&self, from_hint: &Vec<u8>, to_square: Square, color: Color)
        -> (source: Option<Square>)
        ensures
            source == self@.first_source(Piece::Pawn, from_hint@, to_square, color),
    {
        self.find_source_square(Piece::Pawn, from_hint, to_square, color)
    }

    /// Reads a move text given as bytes.
    pub fn read_move(&self, bytes: &Vec<u8>, color: Color) -> (read: Result<
        (Square, Square, Option<Piece>),
        ChessError,
    >)
        ensures
            read == self@.move_read(bytes@, color),
    {
        match read_move_text(bytes) {
            None => Err(ChessError::InvalidPositionEncoding),
            Some(text) => match Square::from_codes(text.file_code, text.rank_code) {
                None => Err(ChessError::InvalidSquareIndex),
                Some(to_square) => {
                    let source = if text.piece == Piece::Pawn {
                        self.find_pawn_source_square(&text.hint, to_square, color)
                    } else {
                        self.find_source_square(text.piece, &text.hint, to_square, color)
                    };
                    match source {
                        None => Err(ChessError::NoPieceAtSquare),
                        Some(from_square) => Ok((from_square, to_square, text.promotion)),
                    }
                },
            },
        }
    }

    /// Reads a move text for `color`: the square the piece comes from, the
    /// square it goes to, and the kind a pawn becomes if the text names one.
    pub fn parse_pgn_move(&self, mov: &str, color: Color) -> (read: Result<
        (Square, Square, Option<Piece>),
        ChessError,
    >)
        ensures
            read == self@.move_read(mov.spec_bytes(), color),
    {
        let bytes = mov.as_bytes_vec();
        self.read_move(&bytes, color)
    }

    /// Makes the piece of `color` on `square` a piece of another kind.
    /// Nothing changes if no piece of `color` stands there, or the kind is
    /// pawn or king.
    pub fn promote_pawn(&mut self, square: Square, piece: Piece, color: Color)
        requires
            old(self).wf(),
        ensures
            final(self)@ == old(self)@.promoted(square, piece, color),
            final(self).history == old(self).history,
            final(self).wf(),
    {
        proof {
            lemma_promoted_wf(self@, square, piece, color);
        }
        if piece == Piece::Pawn || piece == Piece::King || !self.is_occupied_by_friendly(
            square,
            color,
        ) {
            return ;
        }
        self.vacate(square.to_index());
        let index = self.get_piece_index(piece, color);
        self.place(index, square.to_index());
        self.update_occupancy();
        proof {
            assert(self@.occupancy =~= old(self)@.promoted(square, piece, color).occupancy);
        }
    }

    /// Castles for the side to move on the given wing, or fails.
    fn castle(&mut self, short: bool) -> (castled: Result<(), ChessError>)
        requires
            old(self).wf(),
        ensures
            old(self)@.may_castle(short) ==> castled is Ok && final(self)@ == old(self)@.after_move(
                old(self)@.castling_move(short).0,
                old(self)@.castling_move(short).1,
                Piece::King,
                old(self)@.side_to_move,
            ) && final(self).past() == old(self).past().push(old(self)@),
            !old(self)@.may_castle(short) ==> castled == Err::<(), ChessError>(
                ChessError::NoPieceAtSquare,
            ) && final(self)@ == old(self)@ && final(self).past() == old(self).past(),
            final(self).wf(),
    {
        let color = self.side_to_move;
        let from = if color == Color::White {
            Square::E1
        } else {
            Square::E8
        };
        let to = if color == Color::White {
            if short {
                Square::G1
            } else {
                Square::C1
            }
        } else {
            if short {
                Square::G8
            } else {
                Square::C8
            }
        };
        let king = self.pieces[self.get_piece_index(Piece::King, color)];
        let at_home = is_bit_set(king, from.to_index());
        let journey = self.castle_rook(from, to, Piece::King, color);
        if at_home && journey.is_some() {
            self.make_move(from, to, Piece::King, color);
            Ok(())
        } else {
            Err(ChessError::NoPieceAtSquare)
        }
    }

    /// Castles on the king's side for the side to move. `NoPieceAtSquare`,
    /// and no change, if it may not castle there.
    pub fn castle_kingside(&mut self) -> (castled: Result<(), ChessError>)
        requires
            old(self).wf(),
        ensures
            old(self)@.may_castle(true) ==> castled is Ok && final(self)@ == old(self)@.after_move(
                old(self)@.castling_move(true).0,
                old(self)@.castling_move(true).1,
                Piece::King,
                old(self)@.side_to_move,
            ) && final(self).past() == old(self).past().push(old(self)@),
            !old(self)@.may_castle(true) ==> castled == Err::<(), ChessError>(
                ChessError::NoPieceAtSquare,
            ) && final(self)@ == old(self)@ && final(self).past() == old(self).past(),
            final(self).wf(),
    {
        self.castle(true)
    }

    /// Castles on the queen's side for the side to move. `NoPieceAtSquare`,
    /// and no change, if it may not castle there.
    pub fn castle_queenside(&mut self) -> (castled: Result<(), ChessError>)
        requires
            old(self).wf(),
        ensures
            old(self)@.may_castle(false) ==> castled is Ok && final(self)@ == old(self)@.after_move(
                old(self)@.castling_move(false).0,
                old(self)@.castling_move(false).1,
                Piece::King,
                old(self)@.side_to_move,
            ) && final(self).past() == old(self).past().push(old(self)@),
            !old(self)@.may_castle(false) ==> castled == Err::<(), ChessError>(
                ChessError::NoPieceAtSquare,
            ) && final(self)@ == old(self)@ && final(self).past() == old(self).past(),
            final(self).wf(),
    {
        self.castle(false)
    }

    /// Replays the move that a text given as bytes means for the side to
    /// move. On failure the position is as it was.
    pub fn apply_text(&mut self, bytes: &Vec<u8>) -> (applied: Result<(), ChessError>)
        requires
            old(self).wf(),
        ensures
            match old(self)@.after_text(bytes@) {
                Ok(position) => applied is Ok && final(self)@ == position && final(self).past()
                    == old(self).past().push(old(self)@),
                Err(e) => applied == Err::<(), ChessError>(e) && final(self)@ == old(self)@
                    && final(self).past() == old(self).past(),
            },
            final(self).wf(),
    {
        reveal(Position::after_text);
        let short = bytes.len() == 3 && bytes[0] == 79 && bytes[1] == 45 && bytes[2] == 79;
        let long = bytes.len() == 5 && bytes[0] == 79 && bytes[1] == 45 && bytes[2] == 79
            && bytes[3] == 45 && bytes[4] == 79;
        proof {
            assert(short == is_short_castle(bytes@)) by {
                if short {
                    assert(bytes@ =~= seq![79u8, 45u8, 79u8]);
                }
            }
            assert(long == is_long_castle(bytes@)) by {
                if long {
                    assert(bytes@ =~= seq![79u8, 45u8, 79u8, 45u8, 79u8]);
                }
            }
        }
        if short || long {
            return self.castle(short);
        }
        let color = self.side_to_move;
        match self.read_move(bytes, color) {
            Err(e) => Err(e),
            Ok((from_square, to_square, promotion)) => {
                match self.get_piece_at_square(from_square) {
                    None => Err(ChessError::NoPieceAtSquare),
                    Some((piece, _)) => {
                        self.make_move(from_square, to_square, piece, color);
                        match promotion {
                            Some(promoted_piece) => {
                                self.promote_pawn(to_square, promoted_piece, color);
                            },
                            None => {},
                        }
                        Ok(())
                    },
                }
            },
        }
    }

    /// Replays the move that a text means for the side to move; white
    /// space around the text is passed over. A text that is empty, or has
    /// white space inside, is `InvalidPositionEncoding`. On failure the
    /// position is as it was.
    pub fn apply_move_from_pgn(&mut self, mov: &str) -> (applied: Result<(), ChessError>)
        requires
            old(self).wf(),
        ensures
            match old(self)@.after_trimmed_text(mov.spec_bytes()) {
                Ok(position) => applied is Ok && final(self)@ == position && final(self).past()
                    == old(self).past().push(old(self)@),
                Err(e) => applied == Err::<(), ChessError>(e) && final(self)@ == old(self)@
                    && final(self).past() == old(self).past(),
            },
            final(self).wf(),
    {
        let bytes = mov.as_bytes_vec();
        let fields = split_fields(&bytes);
        if fields.len() != 1 {
            return Err(ChessError::InvalidPositionEncoding);
        }
        self.apply_text(&fields[0])
    }

    /// The position after the moves of a text, separated by white space,
    /// have been replayed from the starting position; or the first failure.
    pub fn from_pgn(pgn: &str) -> (board: Result<Board, ChessError>)
        ensures
            match initial_position().after_texts(
                fields_of(pgn.spec_bytes()),
                fields_of(pgn.spec_bytes()).len(),
            ) {
                Ok(position) => board is Ok && board->Ok_0@ == position && board->Ok_0.wf(),
                Err(e) => board is Err && board->Err_0 == e,
            },
    {
        let bytes = pgn.as_bytes_vec();
        let moves = split_fields(&bytes);
        let ghost texts = fields_of(bytes@);
        let mut board = Board::new();
        let mut i: usize = 0;
        while i < moves.len()
            invariant
                i <= moves@.len(),
                moves@.len() == texts.len(),
                texts == fields_of(pgn.spec_bytes()),
                forall|k: int| 0 <= k < moves@.len() ==> (#[trigger] moves@[k])@ == texts[k],
                board.wf(),
                initial_position().after_texts(texts, i as nat) == Ok::<Position, ChessError>(
                    board@,
                ),
            decreases moves@.len() - i,
        {
            let ghost before = board@;
            let applied = board.apply_text(&moves[i]);
            proof {
                assert(moves@[i as int]@ == texts[i as int]);
                lemma_replay_step(initial_position(), texts, i as nat);
                assert(initial_position().after_texts(texts, (i + 1) as nat) == before.after_text(
                    texts[i as int],
                ));
            }
            match applied {
                Ok(()) => {},
                Err(e) => {
                    proof {
                        lemma_replay_fails(initial_position(), texts, (i + 1) as nat, texts.len());
                    }
                    return Err(e);
                },
            }
            i += 1;
        }
        Ok(board)
    }
}

/// One more text is replayed on the position that the texts before it
/// have led to.
pub proof fn lemma_replay_step(position: Position, texts: Seq<Seq<u8>>, count: nat)
    requires
        count < texts.len(),
        position.after_texts(texts, count) is Ok,
    ensures
        position.after_texts(texts, count + 1) == position.after_texts(
            texts,
            count,
        )->Ok_0.after_text(texts[count as int]),
{
}

/// Once a replay has failed, the failure stays.
pub proof fn lemma_replay_fails(
    position: Position,
    texts: Seq<Seq<u8>>,
    failed: nat,
    count: nat,
)
    requires
        failed <= count <= texts.len(),
        position.after_texts(texts, failed) is Err,
    ensures
        position.after_texts(texts, count) == position.after_texts(texts, failed),
    decreases count - failed,
{
    if failed < count {
        lemma_replay_fails(position, texts, failed, (count - 1) as nat);
    }
}

} // verus!
