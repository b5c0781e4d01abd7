//! What the generated moves are, stated without the order of generation:
//! a move is generated exactly when a piece of the mover stands on its
//! first square, its second square is a target of that piece, and the
//! generation keeps it. From this follow what the legal moves, the
//! captures and a check are.

use crate::bitboard::{
    bit_at, lemma_and, lemma_members_listed, lemma_not, lemma_or, member_list,
    members_below_list, Bitboard,
};
use crate::board::generate::{keep_all, king_step, knight_step};
use crate::board::rays::{
    bishop_attacks, lemma_bishop_attacks_members, lemma_rook_attacks_members, reached_within,
    rook_attacks, step_from,
};
use crate::board::{piece_index, Position};
use crate::piece::{Color, Piece};
use crate::square::Square;
use vstd::prelude::*;

verus! {

/// What is in a sequence with one more element.
pub proof fn lemma_push_contains<T>(s: Seq<T>, last: T, needle: T)
    ensures
        s.push(last).contains(needle) <==> s.contains(needle) || needle == last,
{
    if s.contains(needle) {
        let i = choose|i: int| 0 <= i < s.len() && s[i] == needle;
        assert(s.push(last)[i] == needle);
    }
    if needle == last {
        assert(s.push(last)[s.len() as int] == needle);
    }
    if s.push(last).contains(needle) {
        let i = choose|i: int| 0 <= i < s.push(last).len() && s.push(last)[i] == needle;
        if i < s.len() {
            assert(s[i] == needle);
        }
    }
}

/// What is in two sequences put together.
pub proof fn lemma_add_contains<T>(a: Seq<T>, b: Seq<T>, needle: T)
    ensures
        (a + b).contains(needle) <==> a.contains(needle) || b.contains(needle),
{
    if a.contains(needle) {
        let i = choose|i: int| 0 <= i < a.len() && a[i] == needle;
        assert((a + b)[i] == needle);
    }
    if b.contains(needle) {
        let i = choose|i: int| 0 <= i < b.len() && b[i] == needle;
        assert((a + b)[a.len() + i] == needle);
    }
    if (a + b).contains(needle) {
        let i = choose|i: int| 0 <= i < (a + b).len() && (a + b)[i] == needle;
        if i < a.len() {
            assert(a[i] == needle);
        } else {
            assert(b[i - a.len()] == needle);
        }
    }
}

/// The list of the members of a bitboard below a limit holds exactly those
/// members.
pub proof fn lemma_member_list_contains(board: Bitboard, limit: nat, square: nat)
    ensures
        members_below_list(board, limit).contains(square) <==> bit_at(board, square) && square
            < limit,
    decreases limit,
{
    if limit > 0 {
        let rest = members_below_list(board, (limit - 1) as nat);
        lemma_member_list_contains(board, (limit - 1) as nat, square);
        if bit_at(board, (limit - 1) as nat) {
            lemma_push_contains(rest, (limit - 1) as nat, square);
        }
    } else {
        assert(!Seq::<nat>::empty().contains(square));
    }
}

/// How many files square `to` lies to the right of square `from`.
pub open spec fn files_between(from: Square, to: Square) -> int {
    to.file_index() - from.file_index()
}

/// How many ranks square `to` lies above square `from`.
pub open spec fn ranks_between(from: Square, to: Square) -> int {
    to.rank_index() - from.rank_index()
}

/// Whether `to` is a knight's jump from `from`: one file and two ranks
/// away, or two files and one rank.
pub open spec fn knight_jump(from: Square, to: Square) -> bool {
    let files = files_between(from, to);
    let ranks = ranks_between(from, to);
    ((files == 1 || files == -1) && (ranks == 2 || ranks == -2)) || ((files == 2 || files == -2)
        && (ranks == 1 || ranks == -1))
}

/// Whether `to` is next to `from`: at most one file and one rank away, and
/// another square.
pub open spec fn king_step_away(from: Square, to: Square) -> bool {
    let files = files_between(from, to);
    let ranks = ranks_between(from, to);
    -1 <= files <= 1 && -1 <= ranks <= 1 && !(files == 0 && ranks == 0)
}

/// A step arrives on a square exactly when the square lies that many files
/// and ranks away.
pub proof fn lemma_step_arrives(from: Square, files: int, ranks: int, to: Square)
    ensures
        step_from(from.index(), files, ranks) == Some(to) <==> files_between(from, to) == files
            && ranks_between(from, to) == ranks,
{
    from.lemma_index_at();
    to.lemma_index_at();
    let file = from.index() % 8 + files;
    let rank = from.index() / 8 + ranks;
    if 0 <= file < 8 && 0 <= rank < 8 {
        let index = (rank * 8 + file) as nat;
        Square::lemma_at_index(index);
        assert(index % 8 == file && index / 8 == rank);
    }
}

impl Position {
    /// The targets by the first steps of a knight or a king are the squares
    /// that one of those steps arrives on and that the mover does not hold.
    pub proof fn lemma_leaps_contains(
        self,
        from: Square,
        color: Color,
        royal: bool,
        count: nat,
        to: Square,
    )
        ensures
            self.leaps(from, color, royal, count).contains(to) <==> !self.held_by(
                to.index(),
                color,
            ) && exists|i: nat|
                i < count && #[trigger] leap_lands(from, royal, i) == Some(to),
        decreases count,
    {
        if count == 0 {
            assert(!Seq::<Square>::empty().contains(to));
        } else {
            let rest = self.leaps(from, color, royal, (count - 1) as nat);
            self.lemma_leaps_contains(from, color, royal, (count - 1) as nat, to);
            let before = (count - 1) as nat;
            let landed = leap_lands(from, royal, before);
            match landed {
                Some(square) => {
                    if !self.held_by(square.index(), color) {
                        lemma_push_contains(rest, square, to);
                    }
                },
                None => {},
            }
            if exists|i: nat| i < count && #[trigger] leap_lands(from, royal, i) == Some(to) {
                let i = choose|i: nat| i < count && #[trigger] leap_lands(from, royal, i) == Some(to);
                if i < count - 1 {
                    assert(exists|i: nat|
                        i < count - 1 && #[trigger] leap_lands(from, royal, i) == Some(to));
                }
            }
            if exists|i: nat| i < count - 1 && #[trigger] leap_lands(from, royal, i) == Some(to) {
                let i = choose|i: nat|
                    i < count - 1 && #[trigger] leap_lands(from, royal, i) == Some(to);
                assert(i < count && leap_lands(from, royal, i) == Some(to));
            }
            if landed == Some(to) {
                let last = (count - 1) as nat;
                assert(last < count && leap_lands(from, royal, last) == Some(to));
            }
        }
    }

    /// The targets of a knight are the squares a knight's jump away that
    /// the mover does not hold.
    pub proof fn lemma_knight_targets(self, from: Square, color: Color, to: Square)
        ensures
            self.knight_targets(from, color).contains(to) <==> knight_jump(from, to)
                && !self.held_by(to.index(), color),
    {
        self.lemma_leaps_contains(from, color, false, 8, to);
        lemma_step_arrives(from, -1, 2, to);
        lemma_step_arrives(from, 1, 2, to);
        lemma_step_arrives(from, -2, 1, to);
        lemma_step_arrives(from, 2, 1, to);
        lemma_step_arrives(from, -2, -1, to);
        lemma_step_arrives(from, 2, -1, to);
        lemma_step_arrives(from, -1, -2, to);
        lemma_step_arrives(from, 1, -2, to);
        if exists|i: nat| i < 8 && #[trigger] leap_lands(from, false, i) == Some(to) {
            let i = choose|i: nat| i < 8 && #[trigger] leap_lands(from, false, i) == Some(to);
            assert(knight_jump(from, to));
        }
        if knight_jump(from, to) {
            let files = files_between(from, to);
            let ranks = ranks_between(from, to);
            let i: nat = if files == -1 && ranks == 2 {
                0
            } else if files == 1 && ranks == 2 {
                1
            } else if files == -2 && ranks == 1 {
                2
            } else if files == 2 && ranks == 1 {
                3
            } else if files == -2 && ranks == -1 {
                4
            } else if files == 2 && ranks == -1 {
                5
            } else if files == -1 && ranks == -2 {
                6
            } else {
                7
            };
            assert(i < 8 && leap_lands(from, false, i) == Some(to));
        }
    }

    /// The targets of a king are the squares next to it that the mover does
    /// not hold.
    pub proof fn lemma_king_targets(self, from: Square, color: Color, to: Square)
        ensures
            self.king_targets(from, color).contains(to) <==> king_step_away(from, to)
                && !self.held_by(to.index(), color),
    {
        self.lemma_leaps_contains(from, color, true, 8, to);
        lemma_step_arrives(from, 0, 1, to);
        lemma_step_arrives(from, -1, 1, to);
        lemma_step_arrives(from, -1, 0, to);
        lemma_step_arrives(from, -1, -1, to);
        lemma_step_arrives(from, 0, -1, to);
        lemma_step_arrives(from, 1, -1, to);
        lemma_step_arrives(from, 1, 0, to);
        lemma_step_arrives(from, 1, 1, to);
        if exists|i: nat| i < 8 && #[trigger] leap_lands(from, true, i) == Some(to) {
            let i = choose|i: nat| i < 8 && #[trigger] leap_lands(from, true, i) == Some(to);
            assert(king_step_away(from, to));
        }
        if king_step_away(from, to) {
            let files = files_between(from, to);
            let ranks = ranks_between(from, to);
            let i: nat = if files == 0 && ranks == 1 {
                0
            } else if files == -1 && ranks == 1 {
                1
            } else if files == -1 && ranks == 0 {
                2
            } else if files == -1 && ranks == -1 {
                3
            } else if files == 0 && ranks == -1 {
                4
            } else if files == 1 && ranks == -1 {
                5
            } else if files == 1 && ranks == 0 {
                6
            } else {
                7
            };
            assert(i < 8 && leap_lands(from, true, i) == Some(to));
        }
    }
}

/// Whether a rook on `from` reaches `target`: along its rank or file, with
/// nothing but empty squares before it.
pub open spec fn rook_reaches(occupancy: Bitboard, from: nat, target: nat) -> bool {
    reached_within(occupancy, from, 0, 1, 7, target) || reached_within(
        occupancy,
        from,
        1,
        0,
        7,
        target,
    ) || reached_within(occupancy, from, 0, -1, 7, target) || reached_within(
        occupancy,
        from,
        -1,
        0,
        7,
        target,
    )
}

/// Whether a bishop on `from` reaches `target`: along a diagonal, with
/// nothing but empty squares before it.
pub open spec fn bishop_reaches(occupancy: Bitboard, from: nat, target: nat) -> bool {
    reached_within(occupancy, from, 1, 1, 7, target) || reached_within(
        occupancy,
        from,
        1,
        -1,
        7,
        target,
    ) || reached_within(occupancy, from, -1, -1, 7, target) || reached_within(
        occupancy,
        from,
        -1,
        1,
        7,
        target,
    )
}

impl Position {
    /// The attacked squares that the mover does not hold are listed as
    /// targets, and no others.
    pub proof fn lemma_free_squares_contains(self, attacks: Bitboard, color: Color, to: Square)
        ensures
            self.free_squares(attacks, color).contains(to) <==> bit_at(attacks, to.index())
                && !self.held_by(to.index(), color),
    {
        let own = self.occupancy[color.ordinal() as int];
        let free = attacks & !own;
        let listed = member_list(free);
        let squares = self.free_squares(attacks, color);
        to.lemma_index_at();
        lemma_and(attacks, !own);
        lemma_not(own);
        lemma_member_list_contains(free, 64, to.index());
        lemma_members_listed(free, 64);
        if listed.contains(to.index()) {
            let i = choose|i: int| 0 <= i < listed.len() && listed[i] == to.index();
            assert(squares[i] == Square::at(listed[i]));
            assert(squares[i] == to);
        }
        if squares.contains(to) {
            let i = choose|i: int| 0 <= i < squares.len() && squares[i] == to;
            assert(squares[i] == Square::at(listed[i]));
            Square::lemma_at_index(listed[i]);
            assert(listed[i] == to.index());
        }
    }

    /// The targets of a rook are the squares it reaches that the mover does
    /// not hold.
    pub proof fn lemma_rook_targets(self, from: Square, color: Color, to: Square)
        ensures
            self.rook_targets(from, color).contains(to) <==> rook_reaches(
                self.all_occupied(),
                from.index(),
                to.index(),
            ) && !self.held_by(to.index(), color),
    {
        self.lemma_free_squares_contains(
            rook_attacks(self.all_occupied(), from.index()),
            color,
            to,
        );
        lemma_rook_attacks_members(self.all_occupied(), from.index(), to.index());
    }

    /// The targets of a bishop are the squares it reaches that the mover
    /// does not hold.
    pub proof fn lemma_bishop_targets(self, from: Square, color: Color, to: Square)
        ensures
            self.bishop_targets(from, color).contains(to) <==> bishop_reaches(
                self.all_occupied(),
                from.index(),
                to.index(),
            ) && !self.held_by(to.index(), color),
    {
        self.lemma_free_squares_contains(
            bishop_attacks(self.all_occupied(), from.index()),
            color,
            to,
        );
        lemma_bishop_attacks_members(self.all_occupied(), from.index(), to.index());
    }

    /// The targets of a queen are the squares that a rook or a bishop in
    /// its place reaches and that the mover does not hold.
    pub proof fn lemma_queen_targets(self, from: Square, color: Color, to: Square)
        ensures
            self.queen_targets(from, color).contains(to) <==> (rook_reaches(
                self.all_occupied(),
                from.index(),
                to.index(),
            ) || bishop_reaches(self.all_occupied(), from.index(), to.index()))
                && !self.held_by(to.index(), color),
    {
        let diagonal = bishop_attacks(self.all_occupied(), from.index());
        let straight = rook_attacks(self.all_occupied(), from.index());
        self.lemma_free_squares_contains(diagonal | straight, color, to);
        lemma_or(diagonal, straight);
        lemma_rook_attacks_members(self.all_occupied(), from.index(), to.index());
        lemma_bishop_attacks_members(self.all_occupied(), from.index(), to.index());
    }
}

/// The square that the `i`th step of a knight (`royal` false) or a king
/// (`royal` true) on `from` arrives on.
pub open spec fn leap_lands(from: Square, royal: bool, i: nat) -> Option<Square> {
    if royal {
        step_from(from.index(), king_step(i).0, king_step(i).1)
    } else {
        step_from(from.index(), knight_step(i).0, knight_step(i).1)
    }
}

impl Position {
    /// Whether the generation makes the move with a piece of the given
    /// kind: such a piece of `color` stands on the first square, the second
    /// is one of its targets, and the filter keeps the move.
    pub open spec fn makes(
        self,
        mv: (Square, Square),
        piece: Piece,
        color: Color,
        keep: spec_fn(Square, Square, Piece) -> bool,
    ) -> bool {
        self.has(mv.0.index(), piece, color) && self.targets(piece, mv.0, color).contains(mv.1)
            && keep(mv.0, mv.1, piece)
    }

    /// The moves to the first targets of a square are the moves from that
    /// square to those of the targets that the filter keeps.
    pub proof fn lemma_moves_to_contains(
        self,
        from: Square,
        piece: Piece,
        targets: Seq<Square>,
        keep: spec_fn(Square, Square, Piece) -> bool,
        count: nat,
        mv: (Square, Square),
    )
        requires
            count <= targets.len(),
        ensures
            self.moves_to(from, piece, targets, keep, count).contains(mv) <==> mv.0 == from
                && targets.subrange(0, count as int).contains(mv.1) && keep(from, mv.1, piece),
        decreases count,
    {
        if count == 0 {
            assert(!Seq::<(Square, Square)>::empty().contains(mv));
            assert(!targets.subrange(0, 0).contains(mv.1));
        } else {
            let before = self.moves_to(from, piece, targets, keep, (count - 1) as nat);
            let to = targets[count - 1];
            self.lemma_moves_to_contains(from, piece, targets, keep, (count - 1) as nat, mv);
            assert(targets.subrange(0, count as int) =~= targets.subrange(0, count - 1).push(to));
            lemma_push_contains(targets.subrange(0, count - 1), to, mv.1);
            if keep(from, to, piece) {
                lemma_push_contains(before, (from, to), mv);
            }
        }
    }

    /// The moves of the pieces on the first origins are the moves that the
    /// generation makes from those origins.
    pub proof fn lemma_moves_of_contains(
        self,
        piece: Piece,
        color: Color,
        origins: Seq<nat>,
        keep: spec_fn(Square, Square, Piece) -> bool,
        count: nat,
        mv: (Square, Square),
    )
        requires
            count <= origins.len(),
            forall|j: int| 0 <= j < origins.len() ==> #[trigger] origins[j] < 64,
        ensures
            self.moves_of(piece, color, origins, keep, count).contains(mv) <==> origins.subrange(
                0,
                count as int,
            ).contains(mv.0.index()) && self.targets(piece, mv.0, color).contains(mv.1) && keep(
                mv.0,
                mv.1,
                piece,
            ),
        decreases count,
    {
        if count == 0 {
            assert(!Seq::<(Square, Square)>::empty().contains(mv));
            assert(!origins.subrange(0, 0).contains(mv.0.index()));
        } else {
            let origin = origins[count - 1];
            let from = Square::at(origin);
            let targets = self.targets(piece, from, color);
            let before = self.moves_of(piece, color, origins, keep, (count - 1) as nat);
            let added = self.moves_to(from, piece, targets, keep, targets.len());
            self.lemma_moves_of_contains(piece, color, origins, keep, (count - 1) as nat, mv);
            self.lemma_moves_to_contains(from, piece, targets, keep, targets.len(), mv);
            lemma_add_contains(before, added, mv);
            assert(targets.subrange(0, targets.len() as int) =~= targets);
            assert(origins.subrange(0, count as int) =~= origins.subrange(0, count - 1).push(
                origin,
            ));
            lemma_push_contains(origins.subrange(0, count - 1), origin, mv.0.index());
            Square::lemma_at_index(origin);
            mv.0.lemma_index_at();
            assert(mv.0 == from <==> mv.0.index() == origin);
        }
    }

    /// The moves of all pieces of one kind are the moves that the
    /// generation makes with a piece of that kind.
    pub proof fn lemma_moves_of_kind_contains(
        self,
        piece: Piece,
        color: Color,
        keep: spec_fn(Square, Square, Piece) -> bool,
        mv: (Square, Square),
    )
        ensures
            self.moves_of_kind(piece, color, keep).contains(mv) <==> self.makes(
                mv,
                piece,
                color,
                keep,
            ),
    {
        let bitboard = self.pieces[piece_index(piece, color)];
        let origins = member_list(bitboard);
        lemma_members_listed(bitboard, 64);
        self.lemma_moves_of_contains(piece, color, origins, keep, origins.len(), mv);
        assert(origins.subrange(0, origins.len() as int) =~= origins);
        lemma_member_list_contains(bitboard, 64, mv.0.index());
        mv.0.lemma_index_at();
    }

    /// Whether the generation makes the move with a piece of one of the
    /// first `kinds` kinds.
    pub open spec fn makes_with_one_of(
        self,
        mv: (Square, Square),
        color: Color,
        keep: spec_fn(Square, Square, Piece) -> bool,
        kinds: nat,
    ) -> bool {
        exists|piece: Piece| piece.ordinal() < kinds && #[trigger] self.makes(mv, piece, color, keep)
    }

    /// The moves of the first kinds of piece are the moves that the
    /// generation makes with a piece of one of those kinds.
    pub proof fn lemma_moves_upto_contains(
        self,
        color: Color,
        keep: spec_fn(Square, Square, Piece) -> bool,
        kinds: nat,
        mv: (Square, Square),
    )
        requires
            kinds <= 6,
        ensures
            self.moves_upto(color, keep, kinds).contains(mv) <==> self.makes_with_one_of(
                mv,
                color,
                keep,
                kinds,
            ),
        decreases kinds,
    {
        if kinds == 0 {
            assert(!Seq::<(Square, Square)>::empty().contains(mv));
        } else {
            let piece = Piece::of_ordinal((kinds - 1) as nat)->0;
            let before = self.moves_upto(color, keep, (kinds - 1) as nat);
            let added = self.moves_of_kind(piece, color, keep);
            self.lemma_moves_upto_contains(color, keep, (kinds - 1) as nat, mv);
            self.lemma_moves_of_kind_contains(piece, color, keep, mv);
            lemma_add_contains(before, added, mv);
            if self.makes_with_one_of(mv, color, keep, kinds) {
                let found = choose|found: Piece|
                    found.ordinal() < kinds && #[trigger] self.makes(mv, found, color, keep);
                if found.ordinal() < kinds - 1 {
                    assert(self.makes_with_one_of(mv, color, keep, (kinds - 1) as nat));
                } else {
                    assert(found == piece);
                }
            }
            if self.makes_with_one_of(mv, color, keep, (kinds - 1) as nat) {
                let found = choose|found: Piece|
                    found.ordinal() < kinds - 1 && #[trigger] self.makes(mv, found, color, keep);
                assert(found.ordinal() < kinds && self.makes(mv, found, color, keep));
            }
            if self.makes(mv, piece, color, keep) {
                assert(piece.ordinal() < kinds);
            }
        }
    }

    /// A move is among the pseudo-legal moves of a side exactly when a
    /// piece of that side stands on its first square and its second square
    /// is a target of that piece.
    pub proof fn lemma_pseudo_legal_moves(self, color: Color, mv: (Square, Square))
        ensures
            self.pseudo_legal_moves(color).contains(mv) <==> exists|piece: Piece|
                self.has(mv.0.index(), piece, color) && #[trigger] self.reaches(
                    mv.0,
                    mv.1,
                    piece,
                    color,
                ),
    {
        self.lemma_moves_upto_contains(color, keep_all(), 6, mv);
        if self.makes_with_one_of(mv, color, keep_all(), 6) {
            let found = choose|found: Piece|
                found.ordinal() < 6 && #[trigger] self.makes(mv, found, color, keep_all());
            assert(self.has(mv.0.index(), found, color) && self.reaches(
                mv.0,
                mv.1,
                found,
                color,
            ));
        }
        if exists|piece: Piece|
            self.has(mv.0.index(), piece, color) && #[trigger] self.reaches(
                mv.0,
                mv.1,
                piece,
                color,
            ) {
            let found = choose|piece: Piece|
                self.has(mv.0.index(), piece, color) && #[trigger] self.reaches(
                    mv.0,
                    mv.1,
                    piece,
                    color,
                );
            assert(found.ordinal() < 6 && self.makes(mv, found, color, keep_all()));
        }
    }

    /// In a position that meets the invariant, the legal moves that are
    /// generated are the moves that are legal: a move is among them exactly
    /// when a piece of the mover stands on its first square, its second
    /// square is a target of that piece, and the move does not leave the
    /// mover's king attacked.
    pub proof fn lemma_legal_moves(self, color: Color, mv: (Square, Square))
        requires
            self.wf(),
        ensures
            self.legal_moves(color).contains(mv) <==> self.legal(mv, color),
    {
        let keep = self.keep_safe(color);
        self.lemma_moves_upto_contains(color, keep, 6, mv);
        if self.makes_with_one_of(mv, color, keep, 6) {
            let found = choose|found: Piece|
                found.ordinal() < 6 && #[trigger] self.makes(mv, found, color, keep);
            self.lemma_occupant_of_own(mv.0.index(), found, color);
            assert(self.legal(mv, color));
        }
        if self.legal(mv, color) {
            let occupant = self.occupant(mv.0.index())->0;
            let piece = occupant.0;
            self.lemma_occupant_has(mv.0.index());
            assert(self.has(mv.0.index(), piece, color));
            assert(piece.ordinal() < 6 && self.makes(mv, piece, color, keep));
        }
    }

    /// The occupant of a square stands on it.
    pub proof fn lemma_occupant_has(self, square: nat)
        requires
            self.pieces.len() == 12,
            self.occupant(square) is Some,
        ensures
            self.occupant(square) matches Some(found) && self.has(square, found.0, found.1),
    {
        crate::board::lemma_first_holder_holds(self.pieces, square, 0);
    }

    /// The captures of a side are its legal moves that land on a piece of
    /// the opponent.
    pub proof fn lemma_captures(self, color: Color, mv: (Square, Square))
        ensures
            self.captures(color).contains(mv) <==> self.legal_moves(color).contains(mv)
                && self.held_by(mv.1.index(), color.other()),
    {
        let moves = self.legal_moves(color);
        self.lemma_capturing_contains(moves, color, moves.len(), mv);
        assert(moves.subrange(0, moves.len() as int) =~= moves);
    }

    /// Among the first moves, the capturing ones are those that land on a
    /// piece of the opponent.
    pub proof fn lemma_capturing_contains(
        self,
        moves: Seq<(Square, Square)>,
        color: Color,
        count: nat,
        mv: (Square, Square),
    )
        requires
            count <= moves.len(),
        ensures
            self.capturing(moves, color, count).contains(mv) <==> moves.subrange(
                0,
                count as int,
            ).contains(mv) && self.held_by(mv.1.index(), color.other()),
        decreases count,
    {
        if count == 0 {
            assert(!Seq::<(Square, Square)>::empty().contains(mv));
            assert(!moves.subrange(0, 0).contains(mv));
        } else {
            let before = self.capturing(moves, color, (count - 1) as nat);
            let last = moves[count - 1];
            self.lemma_capturing_contains(moves, color, (count - 1) as nat, mv);
            assert(moves.subrange(0, count as int) =~= moves.subrange(0, count - 1).push(last));
            lemma_push_contains(moves.subrange(0, count - 1), last, mv);
            if self.held_by(last.1.index(), color.other()) {
                lemma_push_contains(before, last, mv);
            }
        }
    }

    /// A side is in check exactly when it has a king and a piece of the
    /// opponent has the king's square among its targets.
    pub proof fn lemma_in_check(self, color: Color)
        requires
            self.pieces.len() == 12,
        ensures
            self.in_check(color) <==> self.has_king(color) && exists|from: Square, piece: Piece|
                self.has(from.index(), piece, color.other()) && #[trigger] self.reaches(
                    from,
                    Square::at(self.king_index(color)),
                    piece,
                    color.other(),
                ),
    {
        let moves = self.pseudo_legal_moves(color.other());
        let king = self.king_index(color);
        if self.has_king(color) {
            crate::bitboard::lemma_lowest(self.pieces[piece_index(Piece::King, color)]);
            Square::lemma_at_index(king);
            let target = Square::at(king);
            if Position::lands_on(moves, king) {
                let i = choose|i: int| 0 <= i < moves.len() && (#[trigger] moves[i]).1.index() == king;
                moves[i].1.lemma_index_at();
                assert(moves[i].1 == target);
                assert(moves.contains(moves[i]));
                self.lemma_pseudo_legal_moves(color.other(), moves[i]);
                let piece = choose|piece: Piece|
                    self.has(moves[i].0.index(), piece, color.other()) && #[trigger] self.reaches(
                        moves[i].0,
                        moves[i].1,
                        piece,
                        color.other(),
                    );
                assert(self.has(moves[i].0.index(), piece, color.other()) && self.reaches(
                    moves[i].0,
                    target,
                    piece,
                    color.other(),
                ));
            }
            if exists|from: Square, piece: Piece|
                self.has(from.index(), piece, color.other()) && #[trigger] self.reaches(
                    from,
                    target,
                    piece,
                    color.other(),
                ) {
                let (from, piece) = choose|from: Square, piece: Piece|
                    self.has(from.index(), piece, color.other()) && #[trigger] self.reaches(
                        from,
                        target,
                        piece,
                        color.other(),
                    );
                let mv = (from, target);
                self.lemma_pseudo_legal_moves(color.other(), mv);
                assert(self.has(mv.0.index(), piece, color.other()) && self.reaches(
                    mv.0,
                    mv.1,
                    piece,
                    color.other(),
                ));
                assert(moves.contains((from, target)));
                let i = choose|i: int| 0 <= i < moves.len() && moves[i] == (from, target);
                assert(moves[i].1.index() == king);
            }
        }
    }
}

} // verus!
