//! Move generation.
//!
//! Each kind of piece has its targets: the squares it may go to from a given
//! square, by its geometry and the occupancy of the board. The moves of a
//! side are the targets of its pieces, kind by kind and square by square in
//! ascending order. They are pseudo-legal; the legal moves are those among
//! them that do not leave the mover's own king attacked.

use crate::bitboard::{bit_at, list_members, lowest, member_list, Bitboard};
use crate::board::rays::{bishop_attacks, rook_attacks, step_from, stepped};
use crate::board::{piece_index, Board, Position};
use crate::piece::{Color, Piece};
use crate::square::Square;
use vstd::prelude::*;

verus! {

/// The eight steps of a knight, as files and ranks, in generation order.
pub open spec fn knight_step(i: nat) -> (int, int) {
    if i == 0 {
        (-1, 2)
    } else if i == 1 {
        (1, 2)
    } else if i == 2 {
        (-2, 1)
    } else if i == 3 {
        (2, 1)
    } else if i == 4 {
        (-2, -1)
    } else if i == 5 {
        (2, -1)
    } else if i == 6 {
        (-1, -2)
    } else {
        (1, -2)
    }
}

/// The eight steps of a king, as files and ranks, in generation order.
pub open spec fn king_step(i: nat) -> (int, int) {
    if i == 0 {
        (0, 1)
    } else if i == 1 {
        (-1, 1)
    } else if i == 2 {
        (-1, 0)
    } else if i == 3 {
        (-1, -1)
    } else if i == 4 {
        (0, -1)
    } else if i == 5 {
        (1, -1)
    } else if i == 6 {
        (1, 0)
    } else {
        (1, 1)
    }
}

/// The direction in which a side's pawns advance, in ranks.
pub open spec fn forward(color: Color) -> int {
    if color == Color::White {
        1
    } else {
        -1
    }
}

/// The filter that keeps every move.
pub open spec fn keep_all() -> spec_fn(Square, Square, Piece) -> bool {
    |from: Square, to: Square, piece: Piece| true
}

/// The squares with the given indices.
pub open spec fn squares_at(indices: Seq<nat>) -> Seq<Square> {
    indices.map_values(|i: nat| Square::at(i))
}

impl Position {
    /// The targets of a knight (`royal` false) or a king (`royal` true) on
    /// `from`, by the first `count` of its steps: those that stay on the
    /// board and do not land on a piece of its own side.
    pub open spec fn leaps(self, from: Square, color: Color, royal: bool, count: nat) -> Seq<
        Square,
    >
        decreases count,
    {
        if count == 0 {
            Seq::empty()
        } else {
            let rest = self.leaps(from, color, royal, (count - 1) as nat);
            let step = if royal {
                king_step((count - 1) as nat)
            } else {
                knight_step((count - 1) as nat)
            };
            match step_from(from.index(), step.0, step.1) {
                Some(to) => if self.held_by(to.index(), color) {
                    rest
                } else {
                    rest.push(to)
                },
                None => rest,
            }
        }
    }

    /// The targets of a knight on `from`.
    pub open spec fn knight_targets(self, from: Square, color: Color) -> Seq<Square> {
        self.leaps(from, color, false, 8)
    }

    /// The targets of a king on `from`.
    pub open spec fn king_targets(self, from: Square, color: Color) -> Seq<Square> {
        self.leaps(from, color, true, 8)
    }

    /// The advances of a pawn on `from`: one square if it is empty, and two
    /// from the pawn's starting rank if both are empty.
    pub open spec fn pawn_pushes(self, from: Square, color: Color) -> Seq<Square> {
        match step_from(from.index(), 0, forward(color)) {
            Some(one) => if self.occupied(one.index()) {
                Seq::empty()
            } else {
                let home = if color == Color::White {
                    from.rank_index() == 1
                } else {
                    from.rank_index() == 6
                };
                match step_from(from.index(), 0, 2 * forward(color)) {
                    Some(two) => if home && !self.occupied(two.index()) {
                        seq![one, two]
                    } else {
                        seq![one]
                    },
                    None => seq![one],
                }
            },
            None => Seq::empty(),
        }
    }

    /// The capture of a pawn on `from` towards the file `files` away: onto a
    /// square that the opponent holds or that is the en-passant target.
    pub open spec fn pawn_capture(self, from: Square, color: Color, files: int) -> Seq<Square> {
        match step_from(from.index(), files, forward(color)) {
            Some(to) => if self.held_by(to.index(), color.other()) || self.en_passant == Some(
                to,
            ) {
                seq![to]
            } else {
                Seq::empty()
            },
            None => Seq::empty(),
        }
    }

    /// The targets of a pawn on `from`: its advances, then its captures.
    pub open spec fn pawn_targets(self, from: Square, color: Color) -> Seq<Square> {
        self.pawn_pushes(from, color) + self.pawn_capture(from, color, -1) + self.pawn_capture(
            from,
            color,
            1,
        )
    }

    /// The attacked squares that `color` does not hold itself, in ascending
    /// order.
    pub open spec fn free_squares(self, attacks: Bitboard, color: Color) -> Seq<Square> {
        squares_at(member_list(attacks & !self.occupancy[color.ordinal() as int]))
    }

    /// The targets of a bishop on `from`.
    pub open spec fn bishop_targets(self, from: Square, color: Color) -> Seq<Square> {
        self.free_squares(bishop_attacks(self.all_occupied(), from.index()), color)
    }

    /// The targets of a rook on `from`.
    pub open spec fn rook_targets(self, from: Square, color: Color) -> Seq<Square> {
        self.free_squares(rook_attacks(self.all_occupied(), from.index()), color)
    }

    /// The targets of a queen on `from`: those of a bishop and a rook.
    pub open spec fn queen_targets(self, from: Square, color: Color) -> Seq<Square> {
        self.free_squares(
            bishop_attacks(self.all_occupied(), from.index()) | rook_attacks(
                self.all_occupied(),
                from.index(),
            ),
            color,
        )
    }

    /// The targets of a piece of the given kind on `from`.
    pub open spec fn targets(self, piece: Piece, from: Square, color: Color) -> Seq<Square> {
        match piece {
            Piece::Pawn => self.pawn_targets(from, color),
            Piece::Knight => self.knight_targets(from, color),
            Piece::Bishop => self.bishop_targets(from, color),
            Piece::Rook => self.rook_targets(from, color),
            Piece::Queen => self.queen_targets(from, color),
            Piece::King => self.king_targets(from, color),
        }
    }

    /// The moves from `from` to the first `count` of `targets` that `keep`
    /// lets through.
    pub open spec fn moves_to(
        self,
        from: Square,
        piece: Piece,
        targets: Seq<Square>,
        keep: spec_fn(Square, Square, Piece) -> bool,
        count: nat,
    ) -> Seq<(Square, Square)>
        decreases count,
    {
        if count == 0 || count > targets.len() {
            Seq::empty()
        } else {
            let rest = self.moves_to(from, piece, targets, keep, (count - 1) as nat);
            let to = targets[count - 1];
            if keep(from, to, piece) {
                rest.push((from, to))
            } else {
                rest
            }
        }
    }

    /// The moves of the pieces of one kind that stand on the first `count`
    /// of the squares `origins`.
    pub open spec fn moves_of(
        self,
        piece: Piece,
        color: Color,
        origins: Seq<nat>,
        keep: spec_fn(Square, Square, Piece) -> bool,
        count: nat,
    ) -> Seq<(Square, Square)>
        decreases count,
    {
        if count == 0 || count > origins.len() {
            Seq::empty()
        } else {
            let from = Square::at(origins[count - 1]);
            let targets = self.targets(piece, from, color);
            self.moves_of(piece, color, origins, keep, (count - 1) as nat) + self.moves_to(
                from,
                piece,
                targets,
                keep,
                targets.len(),
            )
        }
    }

    /// The moves of all pieces of one kind, square by square in ascending
    /// order.
    pub open spec fn moves_of_kind(
        self,
        piece: Piece,
        color: Color,
        keep: spec_fn(Square, Square, Piece) -> bool,
    ) -> Seq<(Square, Square)> {
        let origins = member_list(self.pieces[piece_index(piece, color)]);
        self.moves_of(piece, color, origins, keep, origins.len())
    }

    /// The moves of the first `kinds` kinds of piece.
    pub open spec fn moves_upto(
        self,
        color: Color,
        keep: spec_fn(Square, Square, Piece) -> bool,
        kinds: nat,
    ) -> Seq<(Square, Square)>
        decreases kinds,
    {
        if kinds == 0 || kinds > 6 {
            Seq::empty()
        } else {
            self.moves_upto(color, keep, (kinds - 1) as nat) + self.moves_of_kind(
                Piece::of_ordinal((kinds - 1) as nat)->0,
                color,
                keep,
            )
        }
    }

    /// The pseudo-legal moves of `color`: every target of every piece.
    pub open spec fn pseudo_legal_moves(self, color: Color) -> Seq<(Square, Square)> {
        self.moves_upto(color, keep_all(), 6)
    }

    /// Whether some move of `moves` lands on `square`.
    pub open spec fn lands_on(moves: Seq<(Square, Square)>, square: nat) -> bool {
        exists|i: int| 0 <= i < moves.len() && (#[trigger] moves[i]).1.index() == square
    }

    /// Whether `color` has a king.
    pub open spec fn has_king(self, color: Color) -> bool {
        self.pieces[piece_index(Piece::King, color)] != 0
    }

    /// The square of the king of `color`, where there is one.
    pub open spec fn king_index(self, color: Color) -> nat {
        lowest(self.pieces[piece_index(Piece::King, color)])
    }

    /// Whether the king of `color` is attacked: some pseudo-legal move of the
    /// opponent lands on its square. A side without a king is not in check.
    pub open spec fn in_check(self, color: Color) -> bool {
        self.has_king(color) && Position::lands_on(
            self.pseudo_legal_moves(color.other()),
            self.king_index(color),
        )
    }

    /// Whether the move leaves the mover's own king unattacked.
    pub open spec fn safe(self, from: Square, to: Square, piece: Piece, color: Color) -> bool {
        !self.after_move(from, to, piece, color).in_check(color)
    }

    /// The filter that keeps the moves of `color` that are safe.
    pub open spec fn keep_safe(self, color: Color) -> spec_fn(Square, Square, Piece) -> bool {
        |from: Square, to: Square, piece: Piece| self.safe(from, to, piece, color)
    }

    /// The legal moves of `color`: its pseudo-legal moves that do not leave
    /// its own king attacked, in the order of generation.
    pub open spec fn legal_moves(self, color: Color) -> Seq<(Square, Square)> {
        self.moves_upto(color, self.keep_safe(color), 6)
    }

    /// The filter for one of the two generations.
    pub open spec fn filter_for(self, color: Color, only_safe: bool) -> spec_fn(
        Square,
        Square,
        Piece,
    ) -> bool {
        if only_safe {
            self.keep_safe(color)
        } else {
            keep_all()
        }
    }
}

impl Position {
    /// The moves of one more origin square are appended to those of the
    /// squares before it.
    pub proof fn lemma_moves_of_step(
        self,
        piece: Piece,
        color: Color,
        origins: Seq<nat>,
        keep: spec_fn(Square, Square, Piece) -> bool,
        count: nat,
    )
        requires
            count < origins.len(),
        ensures
            self.moves_of(piece, color, origins, keep, count + 1) == self.moves_of(
                piece,
                color,
                origins,
                keep,
                count,
            ) + self.moves_to(
                Square::at(origins[count as int]),
                piece,
                self.targets(piece, Square::at(origins[count as int]), color),
                keep,
                self.targets(piece, Square::at(origins[count as int]), color).len(),
            ),
    {
    }
}

impl Position {
    /// Whether a piece of `color` stands on `square`, by the piece
    /// bitboards.
    pub open spec fn owns(self, square: nat, color: Color) -> bool {
        self.has(square, Piece::Pawn, color) || self.has(square, Piece::Knight, color) || self.has(
            square,
            Piece::Bishop,
            color,
        ) || self.has(square, Piece::Rook, color) || self.has(square, Piece::Queen, color)
            || self.has(square, Piece::King, color)
    }

    /// Every move to the targets of a square starts on that square.
    pub proof fn lemma_moves_to_start(
        self,
        from: Square,
        piece: Piece,
        targets: Seq<Square>,
        keep: spec_fn(Square, Square, Piece) -> bool,
        count: nat,
    )
        ensures
            forall|k: int|
                0 <= k < self.moves_to(from, piece, targets, keep, count).len() ==> (
                #[trigger] self.moves_to(from, piece, targets, keep, count)[k]).0 == from,
        decreases count,
    {
        if count > 0 && count <= targets.len() {
            self.lemma_moves_to_start(from, piece, targets, keep, (count - 1) as nat);
        }
    }

    /// Every move of the pieces of one kind starts on a square that holds
    /// such a piece.
    pub proof fn lemma_moves_of_start(
        self,
        piece: Piece,
        color: Color,
        origins: Seq<nat>,
        keep: spec_fn(Square, Square, Piece) -> bool,
        count: nat,
    )
        requires
            forall|j: int|
                0 <= j < origins.len() ==> origins[j] < 64 && self.has(
                    #[trigger] origins[j],
                    piece,
                    color,
                ),
        ensures
            forall|k: int|
                0 <= k < self.moves_of(piece, color, origins, keep, count).len() ==> self.has(
                    (#[trigger] self.moves_of(piece, color, origins, keep, count)[k]).0.index(),
                    piece,
                    color,
                ),
        decreases count,
    {
        if count > 0 && count <= origins.len() {
            self.lemma_moves_of_start(piece, color, origins, keep, (count - 1) as nat);
            let from = Square::at(origins[count - 1]);
            let targets = self.targets(piece, from, color);
            self.lemma_moves_to_start(from, piece, targets, keep, targets.len());
            Square::lemma_at_index(origins[count - 1]);
            assert(self.has(origins[count - 1], piece, color));
            let before = self.moves_of(piece, color, origins, keep, (count - 1) as nat);
            let added = self.moves_to(from, piece, targets, keep, targets.len());
            let all = self.moves_of(piece, color, origins, keep, count);
            assert(all == before + added);
            assert forall|k: int| 0 <= k < all.len() implies self.has(
                (#[trigger] all[k]).0.index(),
                piece,
                color,
            ) by {
                if k < before.len() {
                    assert(all[k] == before[k]);
                } else {
                    assert(all[k] == added[k - before.len()]);
                    assert(added[k - before.len()].0 == from);
                }
            }
        }
    }

    /// Every move that is generated for a side starts on a square that
    /// holds a piece of that side.
    pub proof fn lemma_moves_start_on_own(
        self,
        color: Color,
        keep: spec_fn(Square, Square, Piece) -> bool,
        kinds: nat,
    )
        ensures
            forall|k: int|
                0 <= k < self.moves_upto(color, keep, kinds).len() ==> self.owns(
                    (#[trigger] self.moves_upto(color, keep, kinds)[k]).0.index(),
                    color,
                ),
        decreases kinds,
    {
        if kinds > 0 && kinds <= 6 {
            self.lemma_moves_start_on_own(color, keep, (kinds - 1) as nat);
            let piece = Piece::of_ordinal((kinds - 1) as nat)->0;
            let bitboard = self.pieces[piece_index(piece, color)];
            let origins = member_list(bitboard);
            crate::bitboard::lemma_members_listed(bitboard, 64);
            self.lemma_moves_of_start(piece, color, origins, keep, origins.len());
            let before = self.moves_upto(color, keep, (kinds - 1) as nat);
            let added = self.moves_of_kind(piece, color, keep);
            let all = self.moves_upto(color, keep, kinds);
            assert(all == before + added);
            assert forall|k: int| 0 <= k < all.len() implies self.owns(
                (#[trigger] all[k]).0.index(),
                color,
            ) by {
                if k < before.len() {
                    assert(all[k] == before[k]);
                } else {
                    assert(all[k] == added[k - before.len()]);
                    assert(self.has(added[k - before.len()].0.index(), piece, color));
                }
            }
        }
    }

    /// A square that holds a piece of a side has an occupant; where no
    /// square holds two pieces, the occupant is that piece.
    pub proof fn lemma_occupant_of_own(self, square: nat, piece: Piece, color: Color)
        requires
            self.pieces.len() == 12,
            self.has(square, piece, color),
        ensures
            self.occupant(square) is Some,
            self.pieces_apart() ==> self.occupant(square) == Some((piece, color)),
    {
        let index = piece_index(piece, color);
        lemma_first_holder(self.pieces, square, 0, index as nat);
        if self.pieces_apart() {
            let found = crate::board::first_holder(self.pieces, square, 0)->0;
            assert(found == index) by {
                if found != index {
                    assert(bit_at(self.pieces[found as int], square));
                    assert(bit_at(self.pieces[index], square));
                }
            }
        }
    }
}

/// Every legal move starts on a square that has an occupant.
pub proof fn lemma_legal_move_occupied(position: Position, color: Color, k: int)
    requires
        position.pieces.len() == 12,
        0 <= k < position.legal_moves(color).len(),
    ensures
        position.occupant(position.legal_moves(color)[k].0.index()) is Some,
{
    let moves = position.legal_moves(color);
    position.lemma_moves_start_on_own(color, position.keep_safe(color), 6);
    let square = moves[k].0.index();
    assert(position.owns(square, color));
    if position.has(square, Piece::Pawn, color) {
        position.lemma_occupant_of_own(square, Piece::Pawn, color);
    } else if position.has(square, Piece::Knight, color) {
        position.lemma_occupant_of_own(square, Piece::Knight, color);
    } else if position.has(square, Piece::Bishop, color) {
        position.lemma_occupant_of_own(square, Piece::Bishop, color);
    } else if position.has(square, Piece::Rook, color) {
        position.lemma_occupant_of_own(square, Piece::Rook, color);
    } else if position.has(square, Piece::Queen, color) {
        position.lemma_occupant_of_own(square, Piece::Queen, color);
    } else {
        position.lemma_occupant_of_own(square, Piece::King, color);
    }
}

/// A bitboard that holds a square is found, or one before it is.
pub proof fn lemma_first_holder(pieces: Seq<Bitboard>, square: nat, start: nat, holder: nat)
    requires
        pieces.len() == 12,
        start <= holder < 12,
        bit_at(pieces[holder as int], square),
    ensures
        crate::board::first_holder(pieces, square, start) is Some,
        crate::board::first_holder(pieces, square, start)->0 <= holder,
        start <= crate::board::first_holder(pieces, square, start)->0,
        bit_at(pieces[crate::board::first_holder(pieces, square, start)->0 as int], square),
    decreases 12 - start,
{
    if !bit_at(pieces[start as int], square) {
        lemma_first_holder(pieces, square, start + 1, holder);
    }
}

/// The `i`th step of a knight.
fn knight_step_at(i: usize) -> (step: (i32, i32))
    requires
        i < 8,
    ensures
        step.0 == knight_step(i as nat).0,
        step.1 == knight_step(i as nat).1,
        -2 <= step.0 <= 2,
        -2 <= step.1 <= 2,
{
    match i {
        0 => (-1, 2),
        1 => (1, 2),
        2 => (-2, 1),
        3 => (2, 1),
        4 => (-2, -1),
        5 => (2, -1),
        6 => (-1, -2),
        _ => (1, -2),
    }
}

/// The `i`th step of a king.
fn king_step_at(i: usize) -> (step: (i32, i32))
    requires
        i < 8,
    ensures
        step.0 == king_step(i as nat).0,
        step.1 == king_step(i as nat).1,
        -1 <= step.0 <= 1,
        -1 <= step.1 <= 1,
{
    match i {
        0 => (0, 1),
        1 => (-1, 1),
        2 => (-1, 0),
        3 => (-1, -1),
        4 => (0, -1),
        5 => (1, -1),
        6 => (1, 0),
        _ => (1, 1),
    }
}

impl Board {
    /// Appends the targets of a knight or a king on `from_square`.
    fn generate_leaps(&self, from_square: Square, color: Color, royal: bool, moves: &mut Vec<Square>)
        ensures
            final(moves)@ == old(moves)@ + self@.leaps(from_square, color, royal, 8),
    {
        let mut i: usize = 0;
        while i < 8
            invariant
                i <= 8,
                moves@ == old(moves)@ + self@.leaps(from_square, color, royal, i as nat),
            decreases 8 - i,
        {
            let step = if royal {
                king_step_at(i)
            } else {
                knight_step_at(i)
            };
            match stepped(from_square, step.0, step.1) {
                Some(to) => {
                    if !self.is_occupied_by_friendly(to, color) {
                        moves.push(to);
                        assert(moves@ =~= old(moves)@ + self@.leaps(
                            from_square,
                            color,
                            royal,
                            (i + 1) as nat,
                        ));
                    }
                },
                None => {},
            }
            i += 1;
        }
    }

    /// Appends the targets of a knight on `from_square` to `moves`.
    pub fn generate_knight_moves(&self, from_square: Square, color: Color, moves: &mut Vec<Square>)
        ensures
            final(moves)@ == old(moves)@ + self@.knight_targets(from_square, color),
    {
        self.generate_leaps(from_square, color, false, moves);
    }

    /// Appends the targets of a king on `from_square` to `moves`.
    pub fn generate_king_moves(&self, from_square: Square, color: Color, moves: &mut Vec<Square>)
        ensures
            final(moves)@ == old(moves)@ + self@.king_targets(from_square, color),
    {
        self.generate_leaps(from_square, color, true, moves);
    }

    /// Whether `square` is the en-passant target.
    pub fn is_en_passant_target(&self, square: Square) -> (is_target: bool)
        ensures
            is_target == (self@.en_passant == Some(square)),
    {
        match self.en_passant {
            Some(ep_square) => ep_square == square,
            None => false,
        }
    }

    /// Appends the capture of a pawn towards the file `files` away.
    fn generate_pawn_capture(
        &self,
        from_square: Square,
        color: Color,
        files: i32,
        moves: &mut Vec<Square>,
    )
        requires
            -1 <= files <= 1,
        ensures
            final(moves)@ == old(moves)@ + self@.pawn_capture(from_square, color, files as int),
    {
        let direction: i32 = if color == Color::White {
            1
        } else {
            -1
        };
        match stepped(from_square, files, direction) {
            Some(to) => {
                if self.is_occupied_by_opponent(to, color) || self.is_en_passant_target(to) {
                    moves.push(to);
                    assert(moves@ =~= old(moves)@ + seq![to]);
                } else {
                    assert(moves@ =~= old(moves)@ + Seq::<Square>::empty());
                }
            },
            None => {
                assert(moves@ =~= old(moves)@ + Seq::<Square>::empty());
            },
        }
    }

    /// Appends the advances of a pawn on `from_square`.
    fn generate_pawn_pushes(&self, from_square: Square, color: Color, moves: &mut Vec<Square>)
        ensures
            final(moves)@ == old(moves)@ + self@.pawn_pushes(from_square, color),
    {
        let direction: i32 = if color == Color::White {
            1
        } else {
            -1
        };
        let one_step = stepped(from_square, 0, direction);
        let two_steps = stepped(from_square, 0, 2 * direction);
        let starting_rank: usize = if color == Color::White {
            1
        } else {
            6
        };
        let home = from_square.rank_usize() == starting_rank;
        match one_step {
            Some(one) => {
                if self.is_occupied(one) {
                    assert(moves@ =~= old(moves)@ + Seq::<Square>::empty());
                } else {
                    moves.push(one);
                    match two_steps {
                        Some(two) => {
                            if home && !self.is_occupied(two) {
                                moves.push(two);
                                assert(moves@ =~= old(moves)@ + seq![one, two]);
                            } else {
                                assert(moves@ =~= old(moves)@ + seq![one]);
                            }
                        },
                        None => {
                            assert(moves@ =~= old(moves)@ + seq![one]);
                        },
                    }
                }
            },
            None => {
                assert(moves@ =~= old(moves)@ + Seq::<Square>::empty());
            },
        }
    }

    /// Appends the targets of a pawn on `from_square` to `moves`: the single
    /// advance, the double advance from the starting rank, and the captures,
    /// in that order.
    pub fn generate_pawn_moves(&self, from_square: Square, color: Color, moves: &mut Vec<Square>)
        ensures
            final(moves)@ == old(moves)@ + self@.pawn_targets(from_square, color),
    {
        self.generate_pawn_pushes(from_square, color, moves);
        self.generate_pawn_capture(from_square, color, -1, moves);
        self.generate_pawn_capture(from_square, color, 1, moves);
        assert(moves@ =~= old(moves)@ + self@.pawn_targets(from_square, color));
    }

    /// Appends to `moves` the squares of `attacks` that `color` does not
    /// hold itself, in ascending order.
    pub fn add_sliding_piece_moves(&self, attacks: Bitboard, color: Color, moves: &mut Vec<Square>)
        ensures
            final(moves)@ == old(moves)@ + self@.free_squares(attacks, color),
    {
        let free: u64 = attacks & !self.occupancy[color.to_index()];
        let list = list_members(free);
        let ghost wanted = self@.free_squares(attacks, color);
        let mut i: usize = 0;
        while i < list.len()
            invariant
                i <= list@.len(),
                list@.len() == member_list(free).len(),
                wanted == squares_at(member_list(free)),
                forall|k: int| 0 <= k < list@.len() ==> #[trigger] list@[k] == member_list(free)[k],
                forall|k: int| 0 <= k < list@.len() ==> #[trigger] list@[k] < 64,
                moves@ == old(moves)@ + wanted.subrange(0, i as int),
            decreases list@.len() - i,
        {
            let to = Square::from_index(list[i]);
            moves.push(to);
            assert(moves@ =~= old(moves)@ + wanted.subrange(0, i + 1));
            i += 1;
        }
        assert(wanted.subrange(0, i as int) =~= wanted);
    }

    /// Appends the targets of a bishop on `from_square` to `moves`.
    pub fn generate_bishop_moves(&self, from_square: Square, color: Color, moves: &mut Vec<Square>)
        ensures
            final(moves)@ == old(moves)@ + self@.bishop_targets(from_square, color),
    {
        let bishop_moves = self.get_bishop_attacks(from_square.to_index(), self.occupancy());
        self.add_sliding_piece_moves(bishop_moves, color, moves);
    }

    /// Appends the targets of a rook on `from_square` to `moves`.
    pub fn generate_rook_moves(&self, from_square: Square, color: Color, moves: &mut Vec<Square>)
        ensures
            final(moves)@ == old(moves)@ + self@.rook_targets(from_square, color),
    {
        let rook_moves = self.get_rook_attacks(from_square.to_index(), self.occupancy());
        self.add_sliding_piece_moves(rook_moves, color, moves);
    }

    /// Appends the targets of a queen on `from_square` to `moves`.
    pub fn generate_queen_moves(&self, from_square: Square, color: Color, moves: &mut Vec<Square>)
        ensures
            final(moves)@ == old(moves)@ + self@.queen_targets(from_square, color),
    {
        let queen_moves = self.get_bishop_attacks(from_square.to_index(), self.occupancy())
            | self.get_rook_attacks(from_square.to_index(), self.occupancy());
        self.add_sliding_piece_moves(queen_moves, color, moves);
    }

    /// The targets of a piece of the given kind on `from_square`, whether or
    /// not such a piece stands there.
    pub fn generate_piece_moves(&self, piece: Piece, from_square: Square, color: Color) -> (moves:
        Vec<Square>)
        ensures
            moves@ == self@.targets(piece, from_square, color),
    {
        let mut moves: Vec<Square> = Vec::new();
        match piece {
            Piece::Pawn => self.generate_pawn_moves(from_square, color, &mut moves),
            Piece::Knight => self.generate_knight_moves(from_square, color, &mut moves),
            Piece::Bishop => self.generate_bishop_moves(from_square, color, &mut moves),
            Piece::Rook => self.generate_rook_moves(from_square, color, &mut moves),
            Piece::Queen => self.generate_queen_moves(from_square, color, &mut moves),
            Piece::King => self.generate_king_moves(from_square, color, &mut moves),
        }
        assert(moves@ =~= self@.targets(piece, from_square, color));
        moves
    }
}

impl Board {
    /// Appends the moves from `from` to `targets` that the generation keeps.
    fn collect_targets(
        &self,
        from: Square,
        piece: Piece,
        color: Color,
        targets: &Vec<Square>,
        only_safe: bool,
        out: &mut Vec<(Square, Square)>,
    )
        requires
            only_safe ==> self.wf(),
        ensures
            final(out)@ == old(out)@ + self@.moves_to(
                from,
                piece,
                targets@,
                self@.filter_for(color, only_safe),
                targets@.len(),
            ),
        decreases
                (if only_safe {
                    6int
                } else {
                    0int
                }),
    {
        let ghost keep = self@.filter_for(color, only_safe);
        let mut i: usize = 0;
        while i < targets.len()
            invariant
                i <= targets@.len(),
                only_safe ==> self.wf(),
                keep == self@.filter_for(color, only_safe),
                out@ == old(out)@ + self@.moves_to(from, piece, targets@, keep, i as nat),
            decreases targets@.len() - i,
        {
            let to = targets[i];
            let kept = if only_safe {
                self.leaves_king_safe(from, to, piece, color)
            } else {
                true
            };
            if kept {
                out.push((from, to));
            }
            assert(out@ =~= old(out)@ + self@.moves_to(
                from,
                piece,
                targets@,
                keep,
                (i + 1) as nat,
            ));
            i += 1;
        }
    }

    /// Appends the moves of all pieces of one kind that the generation keeps.
    fn collect_kind(
        &self,
        piece: Piece,
        color: Color,
        only_safe: bool,
        out: &mut Vec<(Square, Square)>,
    )
        requires
            only_safe ==> self.wf(),
        ensures
            final(out)@ == old(out)@ + self@.moves_of_kind(
                piece,
                color,
                self@.filter_for(color, only_safe),
            ),
        decreases
                (if only_safe {
                    7int
                } else {
                    1int
                }),
    {
        let ghost keep = self@.filter_for(color, only_safe);
        let bitboard = self.pieces[self.get_piece_index(piece, color)];
        let origins = list_members(bitboard);
        let ghost listed = member_list(bitboard);
        let mut i: usize = 0;
        while i < origins.len()
            invariant
                i <= origins@.len(),
                only_safe ==> self.wf(),
                keep == self@.filter_for(color, only_safe),
                origins@.len() == listed.len(),
                forall|k: int| 0 <= k < origins@.len() ==> #[trigger] origins@[k] == listed[k],
                forall|k: int| 0 <= k < origins@.len() ==> #[trigger] origins@[k] < 64,
                out@ == old(out)@ + self@.moves_of(piece, color, listed, keep, i as nat),
            decreases origins@.len() - i,
        {
            let from = Square::from_index(origins[i]);
            let targets = self.generate_piece_moves(piece, from, color);
            let ghost before = out@;
            self.collect_targets(from, piece, color, &targets, only_safe, out);
            proof {
                let so_far = self@.moves_of(piece, color, listed, keep, i as nat);
                let added = self@.moves_to(from, piece, targets@, keep, targets@.len());
                assert(from == Square::at(listed[i as int]));
                self@.lemma_moves_of_step(piece, color, listed, keep, i as nat);
                assert(out@ == before + added);
                assert(before == old(out)@ + so_far);
                assert(out@ =~= old(out)@ + (so_far + added));
            }
            i += 1;
        }
    }

    /// The moves of `color` that the generation keeps.
    fn collect_moves(&self, color: Color, only_safe: bool) -> (moves: Vec<(Square, Square)>)
        requires
            only_safe ==> self.wf(),
        ensures
            moves@ == self@.moves_upto(color, self@.filter_for(color, only_safe), 6),
        decreases
                (if only_safe {
                    8int
                } else {
                    2int
                }),
    {
        let ghost keep = self@.filter_for(color, only_safe);
        let mut moves: Vec<(Square, Square)> = Vec::new();
        let mut kind: usize = 0;
        while kind < 6
            invariant
                kind <= 6,
                only_safe ==> self.wf(),
                keep == self@.filter_for(color, only_safe),
                moves@ == self@.moves_upto(color, keep, kind as nat),
            decreases 6 - kind,
        {
            let piece = self.index_to_piece(kind);
            self.collect_kind(piece, color, only_safe, &mut moves);
            assert(moves@ =~= self@.moves_upto(color, keep, (kind + 1) as nat));
            kind += 1;
        }
        moves
    }

    /// The pseudo-legal moves of `color`: for each kind of piece from pawn
    /// to king, and each of its squares in ascending order, the targets of
    /// the piece.
    pub fn generate_pseudo_legal_moves(&self, color: Color) -> (moves: Vec<(Square, Square)>)
        ensures
            moves@ == self@.pseudo_legal_moves(color),
        decreases 3int,
    {
        self.collect_moves(color, false)
    }

    /// Whether the king of `color` is attacked.
    pub fn in_check(&self, color: Color) -> (attacked: bool)
        ensures
            attacked == self@.in_check(color),
        decreases 4int,
    {
        let king = self.pieces[self.get_piece_index(Piece::King, color)];
        if king == 0 {
            return false;
        }
        let king_square = crate::bitboard::get_lsb(king);
        let moves = self.generate_pseudo_legal_moves(color.opponent());
        let mut i: usize = 0;
        while i < moves.len()
            invariant
                i <= moves@.len(),
                self@.has_king(color),
                king_square == self@.king_index(color),
                moves@ == self@.pseudo_legal_moves(color.other()),
                forall|k: int| 0 <= k < i ==> (#[trigger] moves@[k]).1.index() != king_square,
            decreases moves@.len() - i,
        {
            if moves[i].1.to_index() == king_square {
                assert((moves@[i as int]).1.index() == king_square);
                return true;
            }
            i += 1;
        }
        false
    }

    /// Whether the move leaves the mover's own king unattacked.
    pub fn leaves_king_safe(&self, from: Square, to: Square, piece: Piece, color: Color) -> (safe:
        bool)
        requires
            self.wf(),
        ensures
            safe == self@.safe(from, to, piece, color),
        decreases 5int,
    {
        let mut scratch = self.fork();
        scratch.make_move(from, to, piece, color);
        !scratch.in_check(color)
    }

    /// The legal moves of `color`: its pseudo-legal moves, in their order,
    /// without those that leave its own king attacked.
    pub fn generate_legal_moves(&self, color: Color) -> (moves: Vec<(Square, Square)>)
        requires
            self.wf(),
        ensures
            moves@ == self@.legal_moves(color),
    {
        self.collect_moves(color, true)
    }
}

} // verus!
