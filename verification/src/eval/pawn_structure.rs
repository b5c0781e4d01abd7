//! Pawn structure: isolated, doubled and passed pawns.

use crate::bitboard::{
    bit_at, lemma_and, lemma_empty, lemma_nonzero_has_member, lemma_or, list_members, member_list,
    Bitboard,
};
use crate::board::{piece_index, Board, Position};
use crate::piece::{Color, Piece};
use crate::square::Square;
use vstd::prelude::*;

verus! {

/// The squares of the a-file.
pub const FILE_A: Bitboard = 0x0101_0101_0101_0101;

pub const ISOLATED_PAWN_PENALTY: i32 = -10;

pub const DOUBLED_PAWN_PENALTY: i32 = -20;

pub const PASSED_PAWN_BONUS: i32 = 50;

/// The squares of the file `file`, counted from zero.
pub open spec fn file_squares(file: nat) -> Bitboard {
    FILE_A << (file as u64)
}

/// The squares of the files next to `file`.
pub open spec fn neighbour_files(file: nat) -> Bitboard {
    (if file > 0 {
        file_squares((file - 1) as nat)
    } else {
        0
    }) | (if file < 7 {
        file_squares(file + 1)
    } else {
        0
    })
}

/// The squares with an index below `square`.
pub open spec fn squares_below(square: nat) -> Bitboard {
    ((1u64 << (square as u64)) - 1) as u64
}

/// The squares on the ranks ahead of `rank` in the direction in which the
/// pawns of `color` advance.
pub open spec fn ranks_ahead(rank: nat, color: Color) -> Bitboard {
    if color == Color::White {
        if rank < 7 {
            0xFFFF_FFFF_FFFF_FFFFu64 << ((8 * (rank + 1)) as u64)
        } else {
            0
        }
    } else {
        squares_below(8 * rank)
    }
}

/// Whether a pawn on `square` is isolated: no pawn of `pawns` stands on a
/// neighbouring file.
pub open spec fn isolated(pawns: Bitboard, square: nat) -> bool {
    pawns & neighbour_files(square % 8) == 0
}

/// Whether a pawn on `square` is doubled: a pawn of `pawns` stands on the
/// same file on a square with a lower index, so that of the pawns of a file
/// all but one are doubled.
pub open spec fn doubled(pawns: Bitboard, square: nat) -> bool {
    pawns & file_squares(square % 8) & squares_below(square) != 0
}

/// Whether a pawn of `color` on `square` is passed: no pawn of `opposing`
/// stands ahead of it on its own file or a neighbouring one.
pub open spec fn passed(opposing: Bitboard, square: nat, color: Color) -> bool {
    opposing & (neighbour_files(square % 8) | file_squares(square % 8)) & ranks_ahead(
        square / 8,
        color,
    ) == 0
}

/// What the structure around one pawn is worth: -10 if it is isolated, -20
/// if it is doubled, +50 if it is passed.
pub open spec fn pawn_worth(pawns: Bitboard, opposing: Bitboard, square: nat, color: Color)
    -> int {
    (if isolated(pawns, square) {
        -10int
    } else {
        0int
    }) + (if doubled(pawns, square) {
        -20int
    } else {
        0int
    }) + (if passed(opposing, square, color) {
        50int
    } else {
        0int
    })
}

/// The worth of the first `count` of the pawns on `squares`, added up.
pub open spec fn structure_sum(
    pawns: Bitboard,
    opposing: Bitboard,
    color: Color,
    squares: Seq<nat>,
    count: nat,
) -> int
    decreases count,
{
    if count == 0 || count > squares.len() {
        0
    } else {
        structure_sum(pawns, opposing, color, squares, (count - 1) as nat) + pawn_worth(
            pawns,
            opposing,
            squares[count - 1],
            color,
        )
    }
}

/// The members of a file's squares are the squares of that file.
pub proof fn lemma_file_squares(file: nat, square: nat)
    requires
        file < 8,
        square < 64,
    ensures
        bit_at(file_squares(file), square) == (square % 8 == file),
{
    let f = file as u64;
    let s = square as u64;
    assert((((0x0101_0101_0101_0101u64 << f) >> s) & 1u64 == 1u64) == (s % 8 == f)) by (bit_vector)
        requires
            f < 8,
            s < 64,
    ;
}

/// The members of the squares below a square are the squares with a lower
/// index.
pub proof fn lemma_squares_below(limit: nat, square: nat)
    requires
        limit < 64,
        square < 64,
    ensures
        bit_at(squares_below(limit), square) == (square < limit),
{
    let l = limit as u64;
    let s = square as u64;
    assert((1u64 << l) >= 1) by (bit_vector)
        requires
            l < 64,
    ;
    let below = ((1u64 << l) - 1) as u64;
    assert(((below >> s) & 1u64 == 1u64) == (s < l)) by (bit_vector)
        requires
            l < 64,
            s < 64,
            below == (1u64 << l) - 1,
            (1u64 << l) >= 1,
    ;
}

/// The members of the files next to a file are the squares of those files.
pub proof fn lemma_neighbour_files(file: nat, square: nat)
    requires
        file < 8,
        square < 64,
    ensures
        bit_at(neighbour_files(file), square) == (square % 8 + 1 == file || square % 8 == file
            + 1),
{
    let left: Bitboard = if file > 0 {
        file_squares((file - 1) as nat)
    } else {
        0
    };
    let right: Bitboard = if file < 7 {
        file_squares(file + 1)
    } else {
        0
    };
    lemma_or(left, right);
    lemma_empty();
    if file > 0 {
        lemma_file_squares((file - 1) as nat, square);
    }
    if file < 7 {
        lemma_file_squares(file + 1, square);
    }
}

/// The members of the ranks ahead of a rank are the squares of the ranks
/// above it for White, and below it for Black.
pub proof fn lemma_ranks_ahead(rank: nat, color: Color, square: nat)
    requires
        rank < 8,
        square < 64,
    ensures
        bit_at(ranks_ahead(rank, color), square) == (if color == Color::White {
            square / 8 > rank
        } else {
            square / 8 < rank
        }),
{
    if color == Color::White {
        if rank < 7 {
            let k = (8 * (rank + 1)) as u64;
            let s = square as u64;
            assert((((0xFFFF_FFFF_FFFF_FFFFu64 << k) >> s) & 1u64 == 1u64) == (s >= k))
                by (bit_vector)
                requires
                    k < 64,
                    s < 64,
            ;
        } else {
            lemma_empty();
        }
    } else {
        lemma_squares_below(8 * rank, square);
    }
}

/// Whether two squares stand on neighbouring files.
pub open spec fn on_neighbour_files(a: nat, b: nat) -> bool {
    a % 8 + 1 == b % 8 || a % 8 == b % 8 + 1
}

/// Whether square `a` stands ahead of square `b` for the pawns of `color`:
/// on a higher rank for White, on a lower one for Black.
pub open spec fn stands_ahead(a: nat, b: nat, color: Color) -> bool {
    if color == Color::White {
        a / 8 > b / 8
    } else {
        a / 8 < b / 8
    }
}

/// A pawn is isolated exactly when no pawn of its side stands on a
/// neighbouring file.
pub proof fn lemma_isolated_meaning(pawns: Bitboard, square: nat)
    requires
        square < 64,
    ensures
        isolated(pawns, square) <==> forall|other: nat|
            bit_at(pawns, other) ==> !on_neighbour_files(other, square),
{
    let mask = neighbour_files(square % 8);
    lemma_and(pawns, mask);
    lemma_nonzero_has_member(pawns & mask);
    lemma_empty();
    assert forall|other: nat| other < 64 implies #[trigger] bit_at(mask, other)
        == on_neighbour_files(other, square) by {
        lemma_neighbour_files(square % 8, other);
    }
    if isolated(pawns, square) {
        assert forall|other: nat| bit_at(pawns, other) implies !on_neighbour_files(
            other,
            square,
        ) by {
            assert(!bit_at(pawns & mask, other));
            assert(bit_at(mask, other) == on_neighbour_files(other, square));
        }
    } else {
        let witness = choose|i: nat| bit_at(pawns & mask, i);
        assert(bit_at(pawns, witness) && bit_at(mask, witness));
        assert(on_neighbour_files(witness, square));
    }
}

/// A pawn is doubled exactly when a pawn of its side stands on its file on
/// a square with a lower index.
pub proof fn lemma_doubled_meaning(pawns: Bitboard, square: nat)
    requires
        square < 64,
    ensures
        doubled(pawns, square) <==> exists|other: nat|
            other < square && other % 8 == square % 8 && bit_at(pawns, other),
{
    let file = file_squares(square % 8);
    let below = squares_below(square);
    lemma_and(pawns, file);
    lemma_and(pawns & file, below);
    lemma_nonzero_has_member(pawns & file & below);
    lemma_empty();
    if doubled(pawns, square) {
        let witness = choose|i: nat| bit_at(pawns & file & below, i);
        assert(bit_at(pawns & file, witness) && bit_at(below, witness));
        assert(bit_at(pawns, witness) && bit_at(file, witness));
        lemma_file_squares(square % 8, witness);
        lemma_squares_below(square, witness);
        assert(witness < square && witness % 8 == square % 8 && bit_at(pawns, witness));
    } else {
        assert forall|other: nat|
            !(other < square && other % 8 == square % 8 && bit_at(pawns, other)) by {
            if other < square && other % 8 == square % 8 && bit_at(pawns, other) {
                lemma_file_squares(square % 8, other);
                lemma_squares_below(square, other);
                assert(bit_at(file, other));
                assert(bit_at(below, other));
                assert(bit_at(pawns & file, other));
                assert(bit_at(pawns & file & below, other));
            }
        }
    }
}

/// A pawn is passed exactly when no opposing pawn stands ahead of it on its
/// own file or a neighbouring one.
pub proof fn lemma_passed_meaning(opposing: Bitboard, square: nat, color: Color)
    requires
        square < 64,
    ensures
        passed(opposing, square, color) <==> forall|other: nat|
            bit_at(opposing, other) ==> !((other % 8 == square % 8 || on_neighbour_files(
                other,
                square,
            )) && stands_ahead(other, square, color)),
{
    let files = neighbour_files(square % 8) | file_squares(square % 8);
    let ahead = ranks_ahead(square / 8, color);
    lemma_or(neighbour_files(square % 8), file_squares(square % 8));
    lemma_and(opposing, files);
    lemma_and(opposing & files, ahead);
    lemma_nonzero_has_member(opposing & files & ahead);
    lemma_empty();
    if passed(opposing, square, color) {
        assert forall|other: nat| bit_at(opposing, other) implies !((other % 8 == square % 8
            || on_neighbour_files(other, square)) && stands_ahead(other, square, color)) by {
            lemma_file_squares(square % 8, other);
            lemma_neighbour_files(square % 8, other);
            lemma_ranks_ahead(square / 8, color, other);
            assert(!bit_at(opposing & files & ahead, other));
            assert(bit_at(opposing & files, other) == (bit_at(opposing, other) && bit_at(
                files,
                other,
            )));
            assert(bit_at(files, other) == (bit_at(neighbour_files(square % 8), other) || bit_at(
                file_squares(square % 8),
                other,
            )));
        }
    } else {
        let witness = choose|i: nat| bit_at(opposing & files & ahead, i);
        assert(bit_at(opposing & files, witness) && bit_at(ahead, witness));
        assert(bit_at(opposing, witness) && bit_at(files, witness));
        lemma_file_squares(square % 8, witness);
        lemma_neighbour_files(square % 8, witness);
        lemma_ranks_ahead(square / 8, color, witness);
        assert(bit_at(files, witness) == (bit_at(neighbour_files(square % 8), witness) || bit_at(
            file_squares(square % 8),
            witness,
        )));
    }
}

impl Position {
    /// The pawn structure of one side: the worth of the structure around
    /// each of its pawns, added up.
    pub open spec fn pawn_structure(self, color: Color) -> int {
        let pawns = self.pieces[piece_index(Piece::Pawn, color)];
        let opposing = self.pieces[piece_index(Piece::Pawn, color.other())];
        structure_sum(pawns, opposing, color, member_list(pawns), member_list(pawns).len())
    }

    /// The pawn-structure term: White's pawn structure minus Black's.
    pub open spec fn pawn_structure_term(self) -> int {
        self.pawn_structure(Color::White) - self.pawn_structure(Color::Black)
    }
}

/// The squares of the file `file`.
fn file_mask(file: usize) -> (mask: Bitboard)
    requires
        file < 8,
    ensures
        mask == file_squares(file as nat),
{
    FILE_A << file
}

/// The squares of the files next to `file`.
fn neighbour_mask(file: usize) -> (mask: Bitboard)
    requires
        file < 8,
    ensures
        mask == neighbour_files(file as nat),
{
    let left_file_mask: u64 = if file > 0 {
        file_mask(file - 1)
    } else {
        0
    };
    let right_file_mask: u64 = if file < 7 {
        file_mask(file + 1)
    } else {
        0
    };
    left_file_mask | right_file_mask
}

/// The squares with an index below `square`.
fn below_mask(square: usize) -> (mask: Bitboard)
    requires
        square < 64,
    ensures
        mask == squares_below(square as nat),
{
    let s: u64 = square as u64;
    assert((1u64 << s) >= 1) by (bit_vector)
        requires
            s < 64,
    ;
    (1u64 << s) - 1
}

/// The squares on the ranks ahead of `rank` for the pawns of `color`.
fn ahead_mask(rank: usize, color: Color) -> (mask: Bitboard)
    requires
        rank < 8,
    ensures
        mask == ranks_ahead(rank as nat, color),
{
    if color == Color::White {
        if rank < 7 {
            0xFFFF_FFFF_FFFF_FFFFu64 << (8 * (rank + 1))
        } else {
            0
        }
    } else {
        below_mask(8 * rank)
    }
}

/// Whether the pawn of `color` on `square` has no friendly pawn on a
/// neighbouring file.
pub fn is_isolated(board: &Board, color: Color, square: Square) -> (alone: bool)
    ensures
        alone == isolated(board@.pieces[piece_index(Piece::Pawn, color)], square.index()),
{
    let file = square.to_index() % 8;
    let pawns = board.pawns(color);
    let adjacent_pawns = pawns & neighbour_mask(file);
    adjacent_pawns == 0
}

/// Whether the pawn of `color` on `square` stands in front of a friendly
/// pawn of its own file, counted from the first rank.
pub fn is_doubled(board: &Board, color: Color, square: Square) -> (second: bool)
    ensures
        second == doubled(board@.pieces[piece_index(Piece::Pawn, color)], square.index()),
{
    let file = square.to_index() % 8;
    let pawns = board.pawns(color);
    (pawns & file_mask(file) & below_mask(square.to_index())) != 0
}

/// Whether the pawn of `color` on `square` has no opposing pawn ahead of it
/// on its own file or a neighbouring one.
pub fn is_passed(board: &Board, color: Color, square: Square) -> (free: bool)
    ensures
        free == passed(
            board@.pieces[piece_index(Piece::Pawn, color.other())],
            square.index(),
            color,
        ),
{
    let rank = square.rank_usize();
    let file = square.to_index() % 8;
    let pawns = board.pawns(color.opponent());
    let opposing_pawns_mask = pawns & (neighbour_mask(file) | file_mask(file));
    (opposing_pawns_mask & ahead_mask(rank, color)) == 0
}

/// The pawn structure of one side.
pub fn side_pawn_structure(board: &Board, color: Color) -> (score: i32)
    ensures
        score == board@.pawn_structure(color),
        -1920 <= score <= 3200,
{
    let pawns = board.pawns(color);
    let ghost opposing = board@.pieces[piece_index(Piece::Pawn, color.other())];
    let squares = list_members(pawns);
    let ghost listed = member_list(pawns);
    proof {
        crate::bitboard::lemma_members_listed(pawns, 64);
    }
    let mut score: i32 = 0;
    let mut i: usize = 0;
    while i < squares.len()
        invariant
            i <= squares@.len() <= 64,
            pawns == board@.pieces[piece_index(Piece::Pawn, color)],
            opposing == board@.pieces[piece_index(Piece::Pawn, color.other())],
            squares@.len() == listed.len(),
            forall|k: int| 0 <= k < squares@.len() ==> #[trigger] squares@[k] == listed[k],
            forall|k: int| 0 <= k < squares@.len() ==> #[trigger] squares@[k] < 64,
            score == structure_sum(pawns, opposing, color, listed, i as nat),
            -30 * i <= score <= 50 * i,
        decreases squares@.len() - i,
    {
        let pawn_square = Square::from_index(squares[i]);
        if is_isolated(board, color, pawn_square) {
            score = score + ISOLATED_PAWN_PENALTY;
        }
        if is_doubled(board, color, pawn_square) {
            score = score + DOUBLED_PAWN_PENALTY;
        }
        if is_passed(board, color, pawn_square) {
            score = score + PASSED_PAWN_BONUS;
        }
        i += 1;
    }
    score
}

/// The pawn-structure term of the evaluation: White's pawn structure minus
/// Black's.
pub fn evaluate_pawn_structure(board: &Board) -> (score: i32)
    ensures
        score == board@.pawn_structure_term(),
        -5120 <= score <= 5120,
{
    side_pawn_structure(board, Color::White) - side_pawn_structure(board, Color::Black)
}

} // verus!
