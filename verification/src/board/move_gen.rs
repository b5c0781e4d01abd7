//! Making moves and taking them back.
//!
//! A move is made by [`Board::make_move`], which first files the position as
//! it stands in the history and then changes it as [`Position::after_move`]
//! says. [`Board::unmake_move`] takes the latest record back out of the
//! history and restores the position from it, whatever the move was.

use crate::bitboard::{
    bit_at, clear_bit, is_bit_set, lemma_insert, lemma_or, lemma_remove, set_bit, single, Bitboard,
};
use crate::board::{piece_index, union_of_six, Board, Position, UndoRecord};
use crate::piece::{Color, Piece};
use crate::square::Square;
use vstd::prelude::*;

verus! {

/// The piece bitboards after the piece of bitboard `index` has left `square`.
pub open spec fn lifted(pieces: Seq<Bitboard>, index: int, square: nat) -> Seq<Bitboard> {
    pieces.update(index, pieces[index] & !single(square))
}

/// The piece bitboards after a piece of bitboard `index` has been put on
/// `square`.
pub open spec fn placed(pieces: Seq<Bitboard>, index: int, square: nat) -> Seq<Bitboard> {
    pieces.update(index, pieces[index] | single(square))
}

/// The piece bitboards after whatever stood on `square` has been removed.
pub open spec fn vacated(pieces: Seq<Bitboard>, square: nat) -> Seq<Bitboard> {
    Seq::new(pieces.len(), |i: int| pieces[i] & !single(square))
}

/// The castling rights that survive the departure of a piece: a king that
/// moves ends both rights of its side, a rook that leaves its home corner
/// ends the right on that wing.
pub open spec fn rights_kept_by(piece: Piece, color: Color, from: nat) -> u8 {
    if piece == Piece::King {
        if color == Color::White {
            12
        } else {
            3
        }
    } else if piece == Piece::Rook {
        if color == Color::White && from == 0 {
            13
        } else if color == Color::White && from == 7 {
            14
        } else if color == Color::Black && from == 56 {
            7
        } else if color == Color::Black && from == 63 {
            11
        } else {
            15
        }
    } else {
        15
    }
}

/// The castling rights that survive an arrival on `to`: whatever arrives on
/// a rook's home corner ends the right on that wing.
pub open spec fn rights_kept_at(to: nat) -> u8 {
    if to == 0 {
        13
    } else if to == 7 {
        14
    } else if to == 56 {
        7
    } else if to == 63 {
        11
    } else {
        15
    }
}

/// The castling rights after a move.
pub open spec fn rights_after(rights: u8, from: Square, to: Square, piece: Piece, color: Color)
    -> u8 {
    rights & rights_kept_by(piece, color, from.index()) & rights_kept_at(to.index())
}

/// A counter one step on, staying at the largest value once it is reached.
pub open spec fn ticked(counter: u32) -> u32 {
    if counter < u32::MAX {
        (counter + 1) as u32
    } else {
        counter
    }
}

/// The position before the latest move, or the present one if no move is on
/// record.
pub open spec fn position_unmade(now: Position, past: Seq<Position>) -> Position {
    if past.len() > 0 {
        past.last()
    } else {
        now
    }
}

/// The history without its latest record.
pub open spec fn past_unmade(past: Seq<Position>) -> Seq<Position> {
    if past.len() > 0 {
        past.drop_last()
    } else {
        past
    }
}

/// No square holds two pieces.
pub open spec fn apart(pieces: Seq<Bitboard>) -> bool {
    forall|i: int, j: int, s: nat|
        0 <= i < j < 12 ==> !(#[trigger] bit_at(pieces[i], s) && #[trigger] bit_at(pieces[j], s))
}

/// Bitboard `index` has at most one member.
pub open spec fn alone(pieces: Seq<Bitboard>, index: int) -> bool {
    forall|a: nat, b: nat|
        #[trigger] bit_at(pieces[index], a) && #[trigger] bit_at(pieces[index], b) ==> a == b
}

/// Every member of a bitboard of `inner` is a member of the same bitboard of
/// `outer`.
pub open spec fn within(inner: Seq<Bitboard>, outer: Seq<Bitboard>) -> bool {
    &&& inner.len() == 12
    &&& outer.len() == 12
    &&& forall|i: int, s: nat|
        0 <= i < 12 && #[trigger] bit_at(inner[i], s) ==> bit_at(outer[i], s)
}

impl Position {
    /// Whether the move is a pawn's capture in passing: a pawn that changes
    /// file onto the en-passant target.
    pub open spec fn captures_in_passing(self, from: Square, to: Square, piece: Piece) -> bool {
        piece == Piece::Pawn && self.en_passant == Some(to) && from.file_index() != to.file_index()
    }

    /// The square of the pawn that a capture in passing removes: on the rank
    /// the capturing pawn leaves, on the file it arrives on.
    pub open spec fn passed_pawn_square(from: Square, to: Square) -> nat {
        from.rank_index() * 8 + to.file_index()
    }

    /// Whether the move takes a pawn to the far rank, where it becomes a
    /// queen.
    pub open spec fn promotes(to: Square, piece: Piece, color: Color) -> bool {
        piece == Piece::Pawn && (if color == Color::White {
            to.rank_index() == 7
        } else {
            to.rank_index() == 0
        })
    }

    /// The rook's journey, if the move is a castling move: the king goes two
    /// files from its home square, the right is held, the rook is at home,
    /// and the squares between them are empty.
    pub open spec fn castling_rook(self, from: Square, to: Square, piece: Piece, color: Color)
        -> Option<(nat, nat)> {
        if piece != Piece::King {
            None
        } else if color == Color::White && from == Square::E1 {
            if to == Square::G1 && self.castling_rights & 1 == 1 && self.has(
                7,
                Piece::Rook,
                Color::White,
            ) && !self.occupied(5) && !self.occupied(6) {
                Some((7nat, 5nat))
            } else if to == Square::C1 && self.castling_rights & 2 == 2 && self.has(
                0,
                Piece::Rook,
                Color::White,
            ) && !self.occupied(1) && !self.occupied(2) && !self.occupied(3) {
                Some((0nat, 3nat))
            } else {
                None
            }
        } else if color == Color::Black && from == Square::E8 {
            if to == Square::G8 && self.castling_rights & 4 == 4 && self.has(
                63,
                Piece::Rook,
                Color::Black,
            ) && !self.occupied(61) && !self.occupied(62) {
                Some((63nat, 61nat))
            } else if to == Square::C8 && self.castling_rights & 8 == 8 && self.has(
                56,
                Piece::Rook,
                Color::Black,
            ) && !self.occupied(57) && !self.occupied(58) && !self.occupied(59) {
                Some((56nat, 59nat))
            } else {
                None
            }
        } else {
            None
        }
    }

    /// The en-passant target that a move leaves behind: the square a pawn
    /// skipped in a two-square advance, and none after any other move.
    pub open spec fn target_after(from: Square, to: Square, piece: Piece) -> Option<Square> {
        if piece == Piece::Pawn && (to.index() == from.index() + 16 || from.index() == to.index()
            + 16) {
            Some(Square::at((from.index() + to.index()) / 2))
        } else {
            None
        }
    }

    /// The piece bitboards after the move, given that the piece stands on
    /// `from`.
    pub open spec fn pieces_after(self, from: Square, to: Square, piece: Piece, color: Color)
        -> Seq<Bitboard> {
        let index = piece_index(piece, color);
        let left = lifted(self.pieces, index, from.index());
        let cleared = vacated(left, to.index());
        let taken = if self.captures_in_passing(from, to, piece) {
            lifted(
                cleared,
                piece_index(Piece::Pawn, color.other()),
                Position::passed_pawn_square(from, to),
            )
        } else {
            cleared
        };
        let landing = if Position::promotes(to, piece, color) {
            piece_index(Piece::Queen, color)
        } else {
            index
        };
        let arrived = placed(taken, landing, to.index());
        match self.castling_rook(from, to, piece, color) {
            Some((rook_from, rook_to)) => placed(
                lifted(arrived, piece_index(Piece::Rook, color), rook_from),
                piece_index(Piece::Rook, color),
                rook_to,
            ),
            None => arrived,
        }
    }

    /// The position after `piece` of `color` has moved from `from` to `to`.
    ///
    /// Whatever stood on `to` is removed. A pawn that captures in passing
    /// removes the pawn it passed, a pawn that reaches the far rank becomes a
    /// queen, and a castling king takes its rook along. The side to move
    /// changes, the half-move clock goes up by one, the full-move number goes
    /// up after a move of Black, and the en-passant target is the square
    /// skipped by a two-square pawn advance or none. If no such piece stands
    /// on `from`, the position stays as it is.
    pub open spec fn after_move(self, from: Square, to: Square, piece: Piece, color: Color)
        -> Position {
        if !self.has(from.index(), piece, color) {
            self
        } else {
            let pieces = self.pieces_after(from, to, piece, color);
            Position {
                pieces,
                occupancy: seq![union_of_six(pieces, 0), union_of_six(pieces, 6)],
                side_to_move: self.side_to_move.other(),
                castling_rights: rights_after(self.castling_rights, from, to, piece, color),
                en_passant: Position::target_after(from, to, piece),
                halfmove_clock: ticked(self.halfmove_clock),
                fullmove_number: if color == Color::Black {
                    ticked(self.fullmove_number)
                } else {
                    self.fullmove_number
                },
            }
        }
    }

    /// The position after the side to move has passed: only the side to move
    /// changes.
    pub open spec fn after_null_move(self) -> Position {
        Position { side_to_move: self.side_to_move.other(), ..self }
    }
}

/// Removing a member keeps squares apart and kings alone.
pub proof fn lemma_lifted_within(pieces: Seq<Bitboard>, index: int, square: nat)
    requires
        pieces.len() == 12,
        0 <= index < 12,
        square < 64,
    ensures
        within(lifted(pieces, index, square), pieces),
        !bit_at(lifted(pieces, index, square)[index], square),
        forall|s: nat|
            s != square ==> #[trigger] bit_at(lifted(pieces, index, square)[index], s) == bit_at(
                pieces[index],
                s,
            ),
{
    lemma_remove(pieces[index], square);
}

/// Emptying a square leaves every bitboard inside what it was, and the
/// square in none.
pub proof fn lemma_vacated_within(pieces: Seq<Bitboard>, square: nat)
    requires
        pieces.len() == 12,
        square < 64,
    ensures
        within(vacated(pieces, square), pieces),
        forall|i: int| 0 <= i < 12 ==> !#[trigger] bit_at(vacated(pieces, square)[i], square),
        forall|i: int, s: nat|
            0 <= i < 12 && s != square ==> #[trigger] bit_at(vacated(pieces, square)[i], s)
                == bit_at(pieces[i], s),
{
    assert forall|i: int, s: nat| 0 <= i < 12 implies #[trigger] bit_at(
        vacated(pieces, square)[i],
        s,
    ) == (bit_at(pieces[i], s) && s != square) by {
        lemma_remove(pieces[i], square);
    }
}

/// What is within bitboards that are apart is apart, and a bitboard within a
/// bitboard with one member has at most one.
pub proof fn lemma_within_keeps(inner: Seq<Bitboard>, outer: Seq<Bitboard>)
    requires
        within(inner, outer),
    ensures
        apart(outer) ==> apart(inner),
        forall|k: int| 0 <= k < 12 && alone(outer, k) ==> alone(inner, k),
{
    if apart(outer) {
        assert forall|i: int, j: int, s: nat| 0 <= i < j < 12 implies !(#[trigger] bit_at(
            inner[i],
            s,
        ) && #[trigger] bit_at(inner[j], s)) by {
            if bit_at(inner[i], s) && bit_at(inner[j], s) {
                assert(bit_at(outer[i], s));
                assert(bit_at(outer[j], s));
            }
        }
    }
    assert forall|k: int| 0 <= k < 12 && alone(outer, k) implies alone(inner, k) by {
        assert forall|a: nat, b: nat| #[trigger]
            bit_at(inner[k], a) && #[trigger] bit_at(inner[k], b) implies a == b by {
            assert(bit_at(outer[k], a));
            assert(bit_at(outer[k], b));
        }
    }
}

/// Putting a piece on a square that no bitboard holds keeps squares apart.
pub proof fn lemma_placed_apart(pieces: Seq<Bitboard>, index: int, square: nat)
    requires
        pieces.len() == 12,
        0 <= index < 12,
        square < 64,
        apart(pieces),
        forall|i: int| 0 <= i < 12 ==> !#[trigger] bit_at(pieces[i], square),
    ensures
        apart(placed(pieces, index, square)),
        forall|s: nat| #[trigger]
            bit_at(placed(pieces, index, square)[index], s) == (bit_at(pieces[index], s) || s
                == square),
{
    lemma_insert(pieces[index], square);
    let after = placed(pieces, index, square);
    assert forall|i: int, j: int, s: nat| 0 <= i < j < 12 implies !(#[trigger] bit_at(after[i], s)
        && #[trigger] bit_at(after[j], s)) by {
        if bit_at(after[i], s) && bit_at(after[j], s) {
            if s == square {
                if i != index {
                    assert(bit_at(pieces[i], square));
                } else {
                    assert(bit_at(pieces[j], square));
                }
            } else {
                assert(bit_at(pieces[i], s));
                assert(bit_at(pieces[j], s));
            }
        }
    }
}

/// Masking castling rights leaves four bits.
pub proof fn lemma_rights_masked(rights: u8, a: u8, b: u8)
    requires
        rights < 16,
    ensures
        rights & a & b < 16,
{
    assert(rights & a & b < 16) by (bit_vector)
        requires
            rights < 16,
    ;
}

/// A square that the occupancy bitboards leave empty is in no piece
/// bitboard.
pub proof fn lemma_unoccupied(position: Position, square: nat)
    requires
        position.pieces.len() == 12,
        position.occupancy.len() == 2,
        position.occupancy_in_step(),
        !position.occupied(square),
    ensures
        forall|i: int| 0 <= i < 12 ==> !#[trigger] bit_at(position.pieces[i], square),
{
    let p = position.pieces;
    lemma_or(position.occupancy[0], position.occupancy[1]);
    lemma_or(p[0] | p[1] | p[2] | p[3] | p[4], p[5]);
    lemma_or(p[0] | p[1] | p[2] | p[3], p[4]);
    lemma_or(p[0] | p[1] | p[2], p[3]);
    lemma_or(p[0] | p[1], p[2]);
    lemma_or(p[0], p[1]);
    lemma_or(p[6] | p[7] | p[8] | p[9] | p[10], p[11]);
    lemma_or(p[6] | p[7] | p[8] | p[9], p[10]);
    lemma_or(p[6] | p[7] | p[8], p[9]);
    lemma_or(p[6] | p[7], p[8]);
    lemma_or(p[6], p[7]);
}

/// A move made on a position that meets the invariant gives a position that
/// meets it.
pub proof fn lemma_after_move_wf(
    position: Position,
    from: Square,
    to: Square,
    piece: Piece,
    color: Color,
)
    requires
        position.wf(),
    ensures
        position.after_move(from, to, piece, color).wf(),
{
    let after = position.after_move(from, to, piece, color);
    if position.has(from.index(), piece, color) {
        from.lemma_index_at();
        to.lemma_index_at();
        let index = piece_index(piece, color);
        let rook = piece_index(Piece::Rook, color);
        let left = lifted(position.pieces, index, from.index());
        let cleared = vacated(left, to.index());
        let victim = Position::passed_pawn_square(from, to);
        let taken = if position.captures_in_passing(from, to, piece) {
            lifted(cleared, piece_index(Piece::Pawn, color.other()), victim)
        } else {
            cleared
        };
        let landing = if Position::promotes(to, piece, color) {
            piece_index(Piece::Queen, color)
        } else {
            index
        };
        let arrived = placed(taken, landing, to.index());
        assert(apart(position.pieces));
        lemma_lifted_within(position.pieces, index, from.index());
        lemma_vacated_within(left, to.index());
        assert(victim < 64) by {
            assert(from.rank_index() < 8 && to.file_index() < 8);
        }
        lemma_lifted_within(cleared, piece_index(Piece::Pawn, color.other()), victim);
        lemma_within_keeps(left, position.pieces);
        lemma_within_keeps(cleared, left);
        lemma_within_keeps(taken, cleared);
        assert(within(taken, position.pieces));
        assert forall|i: int| 0 <= i < 12 implies !#[trigger] bit_at(taken[i], to.index()) by {
            assert(!bit_at(cleared[i], to.index()));
        }
        lemma_placed_apart(taken, landing, to.index());
        let king_w = piece_index(Piece::King, Color::White);
        let king_b = piece_index(Piece::King, Color::Black);
        assert(alone(position.pieces, king_w)) by {
            assert(position.lone_king(Color::White));
            assert forall|a: nat, b: nat| #[trigger]
                bit_at(position.pieces[king_w], a) && #[trigger] bit_at(
                    position.pieces[king_w],
                    b,
                ) implies a == b by {
                assert(position.has(a, Piece::King, Color::White));
                assert(position.has(b, Piece::King, Color::White));
            }
        }
        assert(alone(position.pieces, king_b)) by {
            assert(position.lone_king(Color::Black));
            assert forall|a: nat, b: nat| #[trigger]
                bit_at(position.pieces[king_b], a) && #[trigger] bit_at(
                    position.pieces[king_b],
                    b,
                ) implies a == b by {
                assert(position.has(a, Piece::King, Color::Black));
                assert(position.has(b, Piece::King, Color::Black));
            }
        }
        // The kings after the piece has arrived.
        assert forall|k: int| (k == king_w || k == king_b) implies alone(arrived, k) by {
            assert forall|a: nat, b: nat| #[trigger]
                bit_at(arrived[k], a) && #[trigger] bit_at(arrived[k], b) implies a == b by {
                if k == landing {
                    // The moving piece is this king: it has left its only square.
                    assert(landing == index);
                    if a != to.index() {
                        assert(bit_at(taken[k], a));
                        assert(bit_at(left[k], a));
                        assert(bit_at(position.pieces[k], a));
                        assert(bit_at(position.pieces[k], from.index()));
                    }
                    if b != to.index() {
                        assert(bit_at(taken[k], b));
                        assert(bit_at(left[k], b));
                        assert(bit_at(position.pieces[k], b));
                        assert(bit_at(position.pieces[k], from.index()));
                    }
                } else {
                    assert(bit_at(taken[k], a));
                    assert(bit_at(taken[k], b));
                    assert(bit_at(position.pieces[k], a));
                    assert(bit_at(position.pieces[k], b));
                }
            }
        }
        let pieces = position.pieces_after(from, to, piece, color);
        match position.castling_rook(from, to, piece, color) {
            Some((rook_from, rook_to)) => {
                let raised = lifted(arrived, rook, rook_from);
                lemma_lifted_within(arrived, rook, rook_from);
                lemma_within_keeps(raised, arrived);
                lemma_unoccupied(position, rook_to);
                assert forall|i: int| 0 <= i < 12 implies !#[trigger] bit_at(
                    raised[i],
                    rook_to,
                ) by {
                    if bit_at(raised[i], rook_to) {
                        assert(bit_at(arrived[i], rook_to));
                        assert(rook_to != to.index());
                        assert(bit_at(taken[i], rook_to));
                        assert(bit_at(position.pieces[i], rook_to));
                    }
                }
                lemma_placed_apart(raised, rook, rook_to);
                assert(pieces == placed(raised, rook, rook_to));
                assert(pieces[king_w] == raised[king_w]);
                assert(pieces[king_b] == raised[king_b]);
                assert(alone(raised, king_w));
                assert(alone(raised, king_b));
            },
            None => {
                assert(pieces == arrived);
            },
        }
        assert(apart(pieces));
        assert(alone(pieces, king_w));
        assert(alone(pieces, king_b));
        lemma_rights_masked(
            position.castling_rights,
            rights_kept_by(piece, color, from.index()),
            rights_kept_at(to.index()),
        );
        assert(after.pieces == pieces);
        assert(after.pieces_apart());
        assert(after.lone_king(Color::White));
        assert(after.lone_king(Color::Black));
    }
}

/// Taking back a move that was just made gives back the position and the
/// history exactly as they were, whatever the move.
pub proof fn lemma_unmake_restores(
    now: Position,
    past: Seq<Position>,
    from: Square,
    to: Square,
    piece: Piece,
    color: Color,
)
    ensures
        position_unmade(now.after_move(from, to, piece, color), past.push(now)) == now,
        past_unmade(past.push(now)) == past,
{
    assert(past.push(now).drop_last() =~= past);
}

/// The invariant depends on the bitboards and the castling rights only.
pub proof fn lemma_same_bitboards_wf(before: Position, after: Position)
    requires
        before.wf(),
        after.pieces == before.pieces,
        after.occupancy == before.occupancy,
        after.castling_rights < 16,
    ensures
        after.wf(),
{
    assert forall|a: nat, b: nat| #[trigger]
        after.has(a, Piece::King, Color::White) && #[trigger] after.has(
            b,
            Piece::King,
            Color::White,
        ) implies a == b by {
        assert(before.has(a, Piece::King, Color::White));
        assert(before.has(b, Piece::King, Color::White));
    }
    assert forall|a: nat, b: nat| #[trigger]
        after.has(a, Piece::King, Color::Black) && #[trigger] after.has(
            b,
            Piece::King,
            Color::Black,
        ) implies a == b by {
        assert(before.has(a, Piece::King, Color::Black));
        assert(before.has(b, Piece::King, Color::Black));
    }
}

impl Position {
    /// The kind of piece that stands on the target square after a move: a
    /// queen for a pawn that reaches the far rank, and the piece that moved
    /// for any other.
    pub open spec fn arriving(to: Square, piece: Piece, color: Color) -> Piece {
        if Position::promotes(to, piece, color) {
            Piece::Queen
        } else {
            piece
        }
    }

    /// Whether a move changes what stands on `square`: the squares of the
    /// move itself, the square of a pawn captured in passing, and the
    /// squares of the rook in castling.
    pub open spec fn touches(
        self,
        from: Square,
        to: Square,
        piece: Piece,
        color: Color,
        square: nat,
    ) -> bool {
        ||| square == from.index()
        ||| square == to.index()
        ||| self.captures_in_passing(from, to, piece) && square == Position::passed_pawn_square(
            from,
            to,
        )
        ||| self.castling_rook(from, to, piece, color) matches Some(journey) && (square
            == journey.0 || square == journey.1)
    }
}

/// What a move does to the squares of the board: the piece that moved, or
/// the queen it became, stands on the target square and nothing else does;
/// the square it left is empty; and on every square that the move does not
/// touch stands what stood there before.
pub proof fn lemma_after_move_squares(
    position: Position,
    from: Square,
    to: Square,
    piece: Piece,
    color: Color,
)
    requires
        position.wf(),
        position.has(from.index(), piece, color),
    ensures
        position.after_move(from, to, piece, color).occupant(to.index()) == Some(
            (Position::arriving(to, piece, color), color),
        ),
        from != to ==> position.after_move(from, to, piece, color).occupant(from.index()) is None,
        forall|square: nat|
            !position.touches(from, to, piece, color, square) ==> #[trigger] position.after_move(
                from,
                to,
                piece,
                color,
            ).occupant(square) == position.occupant(square),
{
    from.lemma_index_at();
    to.lemma_index_at();
    let after = position.after_move(from, to, piece, color);
    let index = piece_index(piece, color);
    let rook = piece_index(Piece::Rook, color);
    let pawns = piece_index(Piece::Pawn, color.other());
    let left = lifted(position.pieces, index, from.index());
    let cleared = vacated(left, to.index());
    let victim = Position::passed_pawn_square(from, to);
    let taken = if position.captures_in_passing(from, to, piece) {
        lifted(cleared, pawns, victim)
    } else {
        cleared
    };
    let landing = piece_index(Position::arriving(to, piece, color), color);
    let arrived = placed(taken, landing, to.index());
    assert(victim < 64) by {
        assert(from.rank_index() < 8 && to.file_index() < 8);
    }
    lemma_after_move_wf(position, from, to, piece, color);
    lemma_lifted_within(position.pieces, index, from.index());
    lemma_vacated_within(left, to.index());
    lemma_lifted_within(cleared, pawns, victim);
    lemma_insert(taken[landing], to.index());
    // The bitboards before the rook of a castling move has moved.
    assert forall|i: int, s: nat| 0 <= i < 12 implies #[trigger] bit_at(arrived[i], s) == (if s
        == to.index() {
        i == landing
    } else if s == from.index() && i == index {
        false
    } else if position.captures_in_passing(from, to, piece) && s == victim && i == pawns {
        false
    } else {
        bit_at(position.pieces[i], s)
    }) by {
        if i == landing {
            assert(arrived[i] == taken[i] | single(to.index()));
        } else {
            assert(arrived[i] == taken[i]);
        }
        assert(!bit_at(cleared[i], to.index()));
        if s != to.index() {
            assert(bit_at(cleared[i], s) == bit_at(left[i], s));
        }
    }
    match position.castling_rook(from, to, piece, color) {
        Some((rook_from, rook_to)) => {
            let raised = lifted(arrived, rook, rook_from);
            lemma_lifted_within(arrived, rook, rook_from);
            lemma_insert(raised[rook], rook_to);
            lemma_unoccupied(position, rook_to);
            assert(after.pieces == placed(raised, rook, rook_to));
            assert forall|i: int, s: nat| 0 <= i < 12 implies #[trigger] bit_at(
                after.pieces[i],
                s,
            ) == (if s == rook_to {
                i == rook
            } else if s == rook_from && i == rook {
                false
            } else {
                bit_at(arrived[i], s)
            }) by {
                if i == rook {
                    assert(after.pieces[i] == raised[i] | single(rook_to));
                } else {
                    assert(after.pieces[i] == raised[i]);
                    assert(raised[i] == arrived[i]);
                }
                if s == rook_to && i != rook {
                    assert(!bit_at(position.pieces[i], rook_to));
                }
            }
        },
        None => {
            assert(after.pieces == arrived);
        },
    }
    assert(after.has(to.index(), Position::arriving(to, piece, color), color));
    lemma_holder_found(after.pieces, to.index(), landing as nat);
    if from != to {
        assert forall|i: int| 0 <= i < 12 implies !#[trigger] bit_at(
            after.pieces[i],
            from.index(),
        ) by {
            if bit_at(after.pieces[i], from.index()) {
                assert(bit_at(position.pieces[i], from.index()));
                assert(bit_at(position.pieces[index], from.index()));
            }
        }
        lemma_no_holder(after.pieces, from.index(), 0);
    }
    assert forall|square: nat|
        !position.touches(from, to, piece, color, square) implies #[trigger] after.occupant(square)
        == position.occupant(square) by {
        assert forall|i: int| 0 <= i < 12 implies bit_at(after.pieces[i], square) == bit_at(
            position.pieces[i],
            square,
        ) by {}
        lemma_same_holders(after.pieces, position.pieces, square, 0);
    }
}

/// In bitboards that are apart, the bitboard that holds a square is the
/// first that holds it.
pub proof fn lemma_holder_found(pieces: Seq<Bitboard>, square: nat, holder: nat)
    requires
        pieces.len() == 12,
        holder < 12,
        apart(pieces),
        bit_at(pieces[holder as int], square),
    ensures
        crate::board::first_holder(pieces, square, 0) == Some(holder),
{
    crate::board::generate::lemma_first_holder(pieces, square, 0, holder);
    let found = crate::board::first_holder(pieces, square, 0)->0;
    if found != holder {
        assert(bit_at(pieces[found as int], square));
        assert(bit_at(pieces[holder as int], square));
    }
}

/// A square that no bitboard holds has no holder.
pub proof fn lemma_no_holder(pieces: Seq<Bitboard>, square: nat, start: nat)
    requires
        pieces.len() == 12,
        forall|i: int| 0 <= i < 12 ==> !#[trigger] bit_at(pieces[i], square),
    ensures
        crate::board::first_holder(pieces, square, start) is None,
    decreases 12 - start,
{
    if start < 12 {
        lemma_no_holder(pieces, square, start + 1);
    }
}

/// Bitboards that agree on a square have the same first holder of it.
pub proof fn lemma_same_holders(a: Seq<Bitboard>, b: Seq<Bitboard>, square: nat, start: nat)
    requires
        a.len() == 12,
        b.len() == 12,
        forall|i: int| 0 <= i < 12 ==> bit_at(a[i], square) == bit_at(b[i], square),
    ensures
        crate::board::first_holder(a, square, start) == crate::board::first_holder(
            b,
            square,
            start,
        ),
    decreases 12 - start,
{
    if start < 12 {
        lemma_same_holders(a, b, square, start + 1);
    }
}

/// A move leaves an en-passant target only if it is a pawn's advance of two
/// squares, and then on the square between; whatever target there was
/// before is gone after any move.
pub proof fn lemma_target_after_double_step(
    position: Position,
    from: Square,
    to: Square,
    piece: Piece,
    color: Color,
)
    requires
        position.has(from.index(), piece, color),
    ensures
        position.after_move(from, to, piece, color).en_passant matches Some(target) ==> piece
            == Piece::Pawn && from.file_index() == to.file_index() && (from.rank_index() + 2
            == to.rank_index() || to.rank_index() + 2 == from.rank_index()) && 2 * target.index()
            == from.index() + to.index(),
{
    from.lemma_index_at();
    to.lemma_index_at();
    if piece == Piece::Pawn && (to.index() == from.index() + 16 || from.index() == to.index()
        + 16) {
        Square::lemma_at_index((from.index() + to.index()) / 2);
    }
}

/// Passing twice gives back the position.
pub proof fn lemma_null_move_twice(position: Position)
    ensures
        position.after_null_move().after_null_move() == position,
{
}

impl Board {
    /// The positions on record, oldest first.
    pub open spec fn past(&self) -> Seq<Position> {
        self.history@.map_values(|record: UndoRecord| record@)
    }

    /// The position as a record for the history.
    pub fn snapshot(&self) -> (record: UndoRecord)
        ensures
            record@ == self@,
    {
        UndoRecord {
            pieces: self.pieces,
            occupancy: self.occupancy,
            side_to_move: self.side_to_move,
            castling_rights: self.castling_rights,
            en_passant: self.en_passant,
            halfmove_clock: self.halfmove_clock,
            fullmove_number: self.fullmove_number,
        }
    }

    /// A board with the same position and an empty history.
    pub fn fork(&self) -> (copy: Board)
        ensures
            copy@ == self@,
            copy.history@.len() == 0,
            self.wf() ==> copy.wf(),
    {
        Board {
            pieces: self.pieces,
            occupancy: self.occupancy,
            side_to_move: self.side_to_move,
            castling_rights: self.castling_rights,
            en_passant: self.en_passant,
            halfmove_clock: self.halfmove_clock,
            fullmove_number: self.fullmove_number,
            history: Vec::new(),
        }
    }

    /// The rook's journey if the move is a castling move.
    pub(crate) fn castle_rook(&self, from: Square, to: Square, piece: Piece, color: Color) -> (journey: Option<
        (usize, usize),
    >)
        ensures
            match self@.castling_rook(from, to, piece, color) {
                Some((rook_from, rook_to)) => journey == Some((rook_from as usize, rook_to as usize))
                    && rook_from < 64 && rook_to < 64,
                None => journey is None,
            },
    {
        if piece != Piece::King {
            return None;
        }
        let all: u64 = self.occupancy[0] | self.occupancy[1];
        if color == Color::White && from == Square::E1 {
            if to == Square::G1 && self.castling_rights & 1 == 1 && is_bit_set(self.pieces[3], 7)
                && !is_bit_set(all, 5) && !is_bit_set(all, 6) {
                Some((7, 5))
            } else if to == Square::C1 && self.castling_rights & 2 == 2 && is_bit_set(
                self.pieces[3],
                0,
            ) && !is_bit_set(all, 1) && !is_bit_set(all, 2) && !is_bit_set(all, 3) {
                Some((0, 3))
            } else {
                None
            }
        } else if color == Color::Black && from == Square::E8 {
            if to == Square::G8 && self.castling_rights & 4 == 4 && is_bit_set(self.pieces[9], 63)
                && !is_bit_set(all, 61) && !is_bit_set(all, 62) {
                Some((63, 61))
            } else if to == Square::C8 && self.castling_rights & 8 == 8 && is_bit_set(
                self.pieces[9],
                56,
            ) && !is_bit_set(all, 57) && !is_bit_set(all, 58) && !is_bit_set(all, 59) {
                Some((56, 59))
            } else {
                None
            }
        } else {
            None
        }
    }

    /// Ends the castling rights that a move costs: both of the side whose
    /// king moves, the one on its wing when a rook leaves its home corner,
    /// and the one of a corner that the move arrives on.
    pub fn update_castling_rights(
        &mut self,
        from_square: Square,
        to_square: Square,
        piece: Piece,
        color: Color,
    )
        ensures
            final(self)@ == (Position {
                castling_rights: rights_after(
                    old(self)@.castling_rights,
                    from_square,
                    to_square,
                    piece,
                    color,
                ),
                ..old(self)@
            }),
            final(self).history == old(self).history,
    {
        let by_mover: u8 = if piece == Piece::King {
            if color == Color::White {
                12
            } else {
                3
            }
        } else if piece == Piece::Rook {
            if color == Color::White && from_square == Square::A1 {
                13
            } else if color == Color::White && from_square == Square::H1 {
                14
            } else if color == Color::Black && from_square == Square::A8 {
                7
            } else if color == Color::Black && from_square == Square::H8 {
                11
            } else {
                15
            }
        } else {
            15
        };
        let at_target: u8 = if to_square == Square::A1 {
            13
        } else if to_square == Square::H1 {
            14
        } else if to_square == Square::A8 {
            7
        } else if to_square == Square::H8 {
            11
        } else {
            15
        };
        self.castling_rights = self.castling_rights & by_mover & at_target;
    }

    /// Removes `square` from the piece bitboard `index`.
    pub(crate) fn lift(&mut self, index: usize, square: usize)
        requires
            index < 12,
            square < 64,
        ensures
            final(self)@ == (Position {
                pieces: lifted(old(self)@.pieces, index as int, square as nat),
                ..old(self)@
            }),
            final(self).history == old(self).history,
    {
        let mut bitboard: u64 = self.pieces[index];
        clear_bit(&mut bitboard, square);
        self.pieces[index] = bitboard;
    }

    /// Adds `square` to the piece bitboard `index`.
    pub(crate) fn place(&mut self, index: usize, square: usize)
        requires
            index < 12,
            square < 64,
        ensures
            final(self)@ == (Position {
                pieces: placed(old(self)@.pieces, index as int, square as nat),
                ..old(self)@
            }),
            final(self).history == old(self).history,
    {
        let mut bitboard: u64 = self.pieces[index];
        set_bit(&mut bitboard, square);
        self.pieces[index] = bitboard;
    }

    /// Removes `square` from every piece bitboard.
    pub(crate) fn vacate(&mut self, square: usize)
        requires
            square < 64,
        ensures
            final(self)@ == (Position {
                pieces: vacated(old(self)@.pieces, square as nat),
                ..old(self)@
            }),
            final(self).history == old(self).history,
    {
        let ghost before = self@;
        let mut i: usize = 0;
        while i < 12
            invariant
                i <= 12,
                square < 64,
                self.history == old(self).history,
                self@ == (Position { pieces: self@.pieces, ..before }),
                before == old(self)@,
                forall|j: int| 0 <= j < i ==> #[trigger] self@.pieces[j] == before.pieces[j] & !single(
                    square as nat,
                ),
                forall|j: int| i <= j < 12 ==> #[trigger] self@.pieces[j] == before.pieces[j],
            decreases 12 - i,
        {
            let mut bitboard: u64 = self.pieces[i];
            clear_bit(&mut bitboard, square);
            self.pieces[i] = bitboard;
            i += 1;
        }
        proof {
            assert(self@.pieces =~= vacated(before.pieces, square as nat));
        }
    }

    /// Makes a move: files the position in the history, then changes it as
    /// [`Position::after_move`] says.
    pub fn make_move(&mut self, from: Square, to: Square, piece: Piece, color: Color)
        requires
            old(self).wf(),
        ensures
            final(self)@ == old(self)@.after_move(from, to, piece, color),
            final(self).past() == old(self).past().push(old(self)@),
            final(self).history@.len() == old(self).history@.len() + 1,
            final(self).wf(),
    {
        let ghost before = self@;
        let record = self.snapshot();
        self.history.push(record);
        proof {
            assert(self.past() =~= old(self).past().push(before));
            lemma_after_move_wf(before, from, to, piece, color);
        }
        let index = self.get_piece_index(piece, color);
        let origin = from.to_index();
        let target = to.to_index();
        if !is_bit_set(self.pieces[index], origin) {
            return ;
        }
        let journey = self.castle_rook(from, to, piece, color);
        let passing = match self.en_passant {
            Some(ep) => piece == Piece::Pawn && ep == to && from.file_usize() != to.file_usize(),
            None => false,
        };
        let promotes = piece == Piece::Pawn && (if color == Color::White {
            to.rank_usize() == 7
        } else {
            to.rank_usize() == 0
        });
        self.lift(index, origin);
        self.vacate(target);
        if passing {
            let victim = from.rank_usize() * 8 + to.file_usize();
            let pawns = self.get_piece_index(Piece::Pawn, color.opponent());
            self.lift(pawns, victim);
        }
        let landing = if promotes {
            self.get_piece_index(Piece::Queen, color)
        } else {
            index
        };
        self.place(landing, target);
        match journey {
            Some((rook_from, rook_to)) => {
                let rook = self.get_piece_index(Piece::Rook, color);
                self.lift(rook, rook_from);
                self.place(rook, rook_to);
            },
            None => {},
        }
        assert(self@.pieces == before.pieces_after(from, to, piece, color));
        self.update_occupancy();
        self.side_to_move = self.side_to_move.opponent();
        self.update_castling_rights(from, to, piece, color);
        self.en_passant = if piece == Piece::Pawn && (target == origin + 16 || origin == target
            + 16) {
            Some(Square::from_index((origin + target) / 2))
        } else {
            None
        };
        if self.halfmove_clock < u32::MAX {
            self.halfmove_clock += 1;
        }
        if color == Color::Black && self.fullmove_number < u32::MAX {
            self.fullmove_number += 1;
        }
        proof {
            assert(self@.occupancy =~= before.after_move(from, to, piece, color).occupancy);
        }
    }

    /// Takes back the latest move on record: the position is restored from
    /// the record, and the record leaves the history. With no move on record
    /// nothing changes.
    pub fn unmake_move(&mut self, from: Square, to: Square, piece: Piece, color: Color)
        requires
            old(self).wf(),
        ensures
            final(self)@ == position_unmade(old(self)@, old(self).past()),
            final(self).past() == past_unmade(old(self).past()),
            final(self).history@.len() == if old(self).history@.len() > 0 {
                old(self).history@.len() - 1
            } else {
                0
            },
            final(self).wf(),
    {
        match self.history.pop() {
            Some(record) => {
                self.pieces = record.pieces;
                self.occupancy = record.occupancy;
                self.side_to_move = record.side_to_move;
                self.castling_rights = record.castling_rights;
                self.en_passant = record.en_passant;
                self.halfmove_clock = record.halfmove_clock;
                self.fullmove_number = record.fullmove_number;
                proof {
                    assert(record == old(self).history@.last());
                    assert(self.past() =~= old(self).past().drop_last());
                    assert(self@ == old(self).past().last());
                }
            },
            None => {},
        }
    }

    /// Passes the move: only the side to move changes.
    pub fn do_null_move(&mut self)
        ensures
            final(self)@ == old(self)@.after_null_move(),
            final(self).history == old(self).history,
            old(self).wf() ==> final(self).wf(),
    {
        self.side_to_move = self.side_to_move.opponent();
        proof {
            if old(self).wf() {
                lemma_same_bitboards_wf(old(self)@, self@);
            }
        }
    }

    /// Takes a passed move back: only the side to move changes.
    pub fn undo_null_move(&mut self)
        ensures
            final(self)@ == old(self)@.after_null_move(),
            final(self).history == old(self).history,
            old(self).wf() ==> final(self).wf(),
    {
        self.side_to_move = self.side_to_move.opponent();
        proof {
            if old(self).wf() {
                lemma_same_bitboards_wf(old(self)@, self@);
            }
        }
    }
}

} // verus!
