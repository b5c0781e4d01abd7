//! Captures: the moves that land on a piece of the opponent.

use crate::bitboard::bit_at;
use crate::board::move_gen::{lemma_vacated_within, lemma_within_keeps, vacated};
use crate::board::{union_of_six, Board, Position};
use crate::piece::{Color, Piece};
use crate::square::Square;
use vstd::prelude::*;

verus! {

impl Position {
    /// Among the first `count` of `moves`, those that land on a piece of
    /// the opponent of `color`.
    pub open spec fn capturing(self, moves: Seq<(Square, Square)>, color: Color, count: nat)
        -> Seq<(Square, Square)>
        decreases count,
    {
        if count == 0 || count > moves.len() {
            Seq::empty()
        } else {
            let rest = self.capturing(moves, color, (count - 1) as nat);
            if self.held_by(moves[count - 1].1.index(), color.other()) {
                rest.push(moves[count - 1])
            } else {
                rest
            }
        }
    }

    /// The legal captures of `color`, in the order of generation.
    pub open spec fn captures(self, color: Color) -> Seq<(Square, Square)> {
        self.capturing(self.legal_moves(color), color, self.legal_moves(color).len())
    }

    /// The position after whatever stood on `square` has been removed.
    pub open spec fn without(self, square: Square) -> Position {
        let pieces = vacated(self.pieces, square.index());
        Position {
            pieces,
            occupancy: seq![union_of_six(pieces, 0), union_of_six(pieces, 6)],
            ..self
        }
    }
}

/// Removing a piece keeps the invariant.
pub proof fn lemma_without_wf(position: Position, square: Square)
    requires
        position.wf(),
    ensures
        position.without(square).wf(),
{
    square.lemma_index_at();
    let after = position.without(square);
    lemma_vacated_within(position.pieces, square.index());
    lemma_within_keeps(after.pieces, position.pieces);
    assert forall|a: nat, b: nat| #[trigger]
        after.has(a, Piece::King, Color::White) && #[trigger] after.has(
            b,
            Piece::King,
            Color::White,
        ) implies a == b by {
        assert(position.has(a, Piece::King, Color::White));
        assert(position.has(b, Piece::King, Color::White));
    }
    assert forall|a: nat, b: nat| #[trigger]
        after.has(a, Piece::King, Color::Black) && #[trigger] after.has(
            b,
            Piece::King,
            Color::Black,
        ) implies a == b by {
        assert(position.has(a, Piece::King, Color::Black));
        assert(position.has(b, Piece::King, Color::Black));
    }
    assert forall|i: int, j: int, s: nat| 0 <= i < j < 12 implies !(#[trigger] bit_at(
        after.pieces[i],
        s,
    ) && #[trigger] bit_at(after.pieces[j], s)) by {
        if bit_at(after.pieces[i], s) && bit_at(
            after.pieces[j],
            s,
        ) {
            assert(bit_at(position.pieces[i], s));
            assert(bit_at(position.pieces[j], s));
        }
    }
}

impl Board {
    /// Whether a move of `color` onto `to_square` captures: a piece of the
    /// opponent stands there.
    pub fn is_capture(&self, to_square: Square, color: Color) -> (capture: bool)
        ensures
            capture == self@.held_by(to_square.index(), color.other()),
    {
        self.is_occupied_by_opponent(to_square, color)
    }

    /// The legal moves of `color` that land on a piece of the opponent.
    pub fn generate_captures(&self, color: Color) -> (captures: Vec<(Square, Square)>)
        requires
            self.wf(),
        ensures
            captures@ == self@.captures(color),
    {
        let moves = self.generate_legal_moves(color);
        let mut captures: Vec<(Square, Square)> = Vec::new();
        let mut i: usize = 0;
        while i < moves.len()
            invariant
                i <= moves@.len(),
                captures@ == self@.capturing(moves@, color, i as nat),
            decreases moves@.len() - i,
        {
            if self.is_capture(moves[i].1, color) {
                captures.push(moves[i]);
            }
            i += 1;
        }
        captures
    }

    /// Removes whatever stands on `square`.
    pub fn capture_piece(&mut self, square: Square)
        requires
            old(self).wf(),
        ensures
            final(self)@ == old(self)@.without(square),
            final(self).history == old(self).history,
            final(self).wf(),
    {
        proof {
            lemma_without_wf(self@, square);
        }
        self.vacate(square.to_index());
        self.update_occupancy();
        proof {
            assert(self@.occupancy =~= old(self)@.without(square).occupancy);
        }
    }
}

} // verus!
