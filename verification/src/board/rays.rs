//! Steps across the board and the attacks of the sliding pieces.
//!
//! A rook, bishop or queen attacks along rays: square after square in one
//! direction, up to and including the first occupied square. The attacks are
//! found by walking the rays, so they hold for every occupancy without any
//! table to fill beforehand.

use crate::bitboard::{
    bit_at, is_bit_set, lemma_empty, lemma_or, lemma_or_assoc, lemma_single, set_bit, single,
    Bitboard,
};
use crate::board::Board;
use crate::square::Square;
use vstd::prelude::*;

verus! {

/// The square `files` files and `ranks` ranks away from square `from`, or
/// `None` if that leaves the board.
pub open spec fn step_from(from: nat, files: int, ranks: int) -> Option<Square> {
    let file = from % 8 + files;
    let rank = from / 8 + ranks;
    if 0 <= file < 8 && 0 <= rank < 8 {
        Some(Square::at((rank * 8 + file) as nat))
    } else {
        None
    }
}

/// The squares attacked from `from` in the direction (`files`, `ranks`),
/// walking at most `steps` squares: each square in turn, up to and including
/// the first that `occupancy` holds.
pub open spec fn ray_within(occupancy: Bitboard, from: nat, files: int, ranks: int, steps: nat)
    -> Bitboard
    decreases steps,
{
    if steps == 0 {
        0
    } else {
        match step_from(from, files, ranks) {
            None => 0,
            Some(to) => if bit_at(occupancy, to.index()) {
                single(to.index())
            } else {
                single(to.index()) | ray_within(
                    occupancy,
                    to.index(),
                    files,
                    ranks,
                    (steps - 1) as nat,
                )
            },
        }
    }
}

/// The squares attacked from `from` along one ray. Seven steps cross the
/// board.
pub open spec fn ray(occupancy: Bitboard, from: nat, files: int, ranks: int) -> Bitboard {
    ray_within(occupancy, from, files, ranks, 7)
}

/// The squares a rook on `from` attacks: its four rays along rank and file.
pub open spec fn rook_attacks(occupancy: Bitboard, from: nat) -> Bitboard {
    ray(occupancy, from, 0, 1) | ray(occupancy, from, 1, 0) | ray(occupancy, from, 0, -1) | ray(
        occupancy,
        from,
        -1,
        0,
    )
}

/// The squares a bishop on `from` attacks: its four diagonal rays.
pub open spec fn bishop_attacks(occupancy: Bitboard, from: nat) -> Bitboard {
    ray(occupancy, from, 1, 1) | ray(occupancy, from, 1, -1) | ray(occupancy, from, -1, -1) | ray(
        occupancy,
        from,
        -1,
        1,
    )
}

/// The square `count` steps from `from` in the direction (`files`,
/// `ranks`), or `None` if the walk leaves the board.
pub open spec fn walked(from: nat, files: int, ranks: int, count: nat) -> Option<nat>
    decreases count,
{
    if count == 0 {
        Some(from)
    } else {
        match step_from(from, files, ranks) {
            Some(next) => walked(next.index(), files, ranks, (count - 1) as nat),
            None => None,
        }
    }
}

/// Whether the squares before the `count`th of a walk are on the board and
/// empty.
pub open spec fn path_clear(occupancy: Bitboard, from: nat, files: int, ranks: int, count: nat)
    -> bool {
    forall|j: nat|
        1 <= j < count ==> (#[trigger] walked(from, files, ranks, j)) is Some && !bit_at(
            occupancy,
            walked(from, files, ranks, j)->0,
        )
}

/// Whether `target` is reached from `from` in the direction (`files`,
/// `ranks`) within `steps` steps: it lies some steps away, and every square
/// before it is empty.
pub open spec fn reached_within(
    occupancy: Bitboard,
    from: nat,
    files: int,
    ranks: int,
    steps: nat,
    target: nat,
) -> bool {
    exists|count: nat|
        1 <= count <= steps && #[trigger] walked(from, files, ranks, count) == Some(target)
            && path_clear(occupancy, from, files, ranks, count)
}

/// The squares attacked along a ray are the squares reached along it: those
/// that lie in its direction with nothing but empty squares before them.
pub proof fn lemma_ray_members(
    occupancy: Bitboard,
    from: nat,
    files: int,
    ranks: int,
    steps: nat,
    target: nat,
)
    ensures
        bit_at(ray_within(occupancy, from, files, ranks, steps), target) <==> reached_within(
            occupancy,
            from,
            files,
            ranks,
            steps,
            target,
        ),
    decreases steps,
{
    lemma_empty();
    if steps == 0 {
    } else {
        match step_from(from, files, ranks) {
            None => {
                assert forall|count: nat| 1 <= count implies walked(from, files, ranks, count)
                    is None by {}
            },
            Some(next) => {
                let n = next.index();
                next.lemma_index_at();
                lemma_single(n);
                assert(walked(from, files, ranks, 1) == walked(n, files, ranks, 0));
                assert(walked(from, files, ranks, 1) == Some(n));
                if bit_at(occupancy, n) {
                    if reached_within(occupancy, from, files, ranks, steps, target) {
                        let count = choose|count: nat|
                            1 <= count <= steps && #[trigger] walked(from, files, ranks, count)
                                == Some(target) && path_clear(
                                occupancy,
                                from,
                                files,
                                ranks,
                                count,
                            );
                        if count > 1 {
                            assert(walked(from, files, ranks, 1) is Some && !bit_at(
                                occupancy,
                                walked(from, files, ranks, 1)->0,
                            ));
                        }
                        assert(target == n);
                    }
                    if target == n {
                        assert(path_clear(occupancy, from, files, ranks, 1));
                        assert(walked(from, files, ranks, 1) == Some(target));
                    }
                } else {
                    let rest = ray_within(occupancy, n, files, ranks, (steps - 1) as nat);
                    lemma_or(single(n), rest);
                    lemma_ray_members(occupancy, n, files, ranks, (steps - 1) as nat, target);
                    if reached_within(occupancy, from, files, ranks, steps, target) {
                        let count = choose|count: nat|
                            1 <= count <= steps && #[trigger] walked(from, files, ranks, count)
                                == Some(target) && path_clear(
                                occupancy,
                                from,
                                files,
                                ranks,
                                count,
                            );
                        if count > 1 {
                            let shorter = (count - 1) as nat;
                            assert(walked(n, files, ranks, shorter) == Some(target));
                            assert forall|j: nat| 1 <= j < shorter implies (#[trigger] walked(
                                n,
                                files,
                                ranks,
                                j,
                            )) is Some && !bit_at(occupancy, walked(n, files, ranks, j)->0) by {
                                assert(walked(from, files, ranks, j + 1) == walked(
                                    n,
                                    files,
                                    ranks,
                                    j,
                                ));
                                assert(walked(from, files, ranks, j + 1) is Some);
                            }
                            assert(reached_within(
                                occupancy,
                                n,
                                files,
                                ranks,
                                (steps - 1) as nat,
                                target,
                            ));
                        } else {
                            assert(target == n);
                        }
                    }
                    if target == n {
                        assert(path_clear(occupancy, from, files, ranks, 1));
                        assert(walked(from, files, ranks, 1) == Some(target));
                    }
                    if reached_within(occupancy, n, files, ranks, (steps - 1) as nat, target) {
                        let shorter = choose|count: nat|
                            1 <= count <= steps - 1 && #[trigger] walked(n, files, ranks, count)
                                == Some(target) && path_clear(occupancy, n, files, ranks, count);
                        let count = shorter + 1;
                        assert(walked(from, files, ranks, count) == walked(
                            n,
                            files,
                            ranks,
                            shorter,
                        ));
                        assert forall|j: nat| 1 <= j < count implies (#[trigger] walked(
                            from,
                            files,
                            ranks,
                            j,
                        )) is Some && !bit_at(occupancy, walked(from, files, ranks, j)->0) by {
                            if j > 1 {
                                let before = (j - 1) as nat;
                                assert(walked(from, files, ranks, j) == walked(
                                    n,
                                    files,
                                    ranks,
                                    before,
                                ));
                                assert(walked(n, files, ranks, before) is Some);
                            }
                        }
                        assert(path_clear(occupancy, from, files, ranks, count));
                        assert(reached_within(occupancy, from, files, ranks, steps, target));
                    }
                }
            },
        }
    }
}

/// A rook attacks the squares reached along rank and file.
pub proof fn lemma_rook_attacks_members(occupancy: Bitboard, from: nat, target: nat)
    ensures
        bit_at(rook_attacks(occupancy, from), target) <==> (reached_within(
            occupancy,
            from,
            0,
            1,
            7,
            target,
        ) || reached_within(occupancy, from, 1, 0, 7, target) || reached_within(
            occupancy,
            from,
            0,
            -1,
            7,
            target,
        ) || reached_within(occupancy, from, -1, 0, 7, target)),
{
    let north = ray(occupancy, from, 0, 1);
    let east = ray(occupancy, from, 1, 0);
    let south = ray(occupancy, from, 0, -1);
    let west = ray(occupancy, from, -1, 0);
    lemma_or(north | east | south, west);
    lemma_or(north | east, south);
    lemma_or(north, east);
    lemma_ray_members(occupancy, from, 0, 1, 7, target);
    lemma_ray_members(occupancy, from, 1, 0, 7, target);
    lemma_ray_members(occupancy, from, 0, -1, 7, target);
    lemma_ray_members(occupancy, from, -1, 0, 7, target);
}

/// A bishop attacks the squares reached along the diagonals.
pub proof fn lemma_bishop_attacks_members(occupancy: Bitboard, from: nat, target: nat)
    ensures
        bit_at(bishop_attacks(occupancy, from), target) <==> (reached_within(
            occupancy,
            from,
            1,
            1,
            7,
            target,
        ) || reached_within(occupancy, from, 1, -1, 7, target) || reached_within(
            occupancy,
            from,
            -1,
            -1,
            7,
            target,
        ) || reached_within(occupancy, from, -1, 1, 7, target)),
{
    let a = ray(occupancy, from, 1, 1);
    let b = ray(occupancy, from, 1, -1);
    let c = ray(occupancy, from, -1, -1);
    let d = ray(occupancy, from, -1, 1);
    lemma_or(a | b | c, d);
    lemma_or(a | b, c);
    lemma_or(a, b);
    lemma_ray_members(occupancy, from, 1, 1, 7, target);
    lemma_ray_members(occupancy, from, 1, -1, 7, target);
    lemma_ray_members(occupancy, from, -1, -1, 7, target);
    lemma_ray_members(occupancy, from, -1, 1, 7, target);
}

/// The square `files` files and `ranks` ranks away from `from`, if it is on
/// the board.
pub fn stepped(from: Square, files: i32, ranks: i32) -> (to: Option<Square>)
    requires
        -8 <= files <= 8,
        -8 <= ranks <= 8,
    ensures
        to == step_from(from.index(), files as int, ranks as int),
{
    let file: i32 = from.file_usize() as i32 + files;
    let rank: i32 = from.rank_usize() as i32 + ranks;
    if 0 <= file && file < 8 && 0 <= rank && rank < 8 {
        Some(Square::new(rank as usize, file as usize))
    } else {
        None
    }
}

/// Walks one ray from `from` and returns the squares attacked along it.
pub fn ray_attacks(occupancy: Bitboard, from: usize, files: i32, ranks: i32) -> (attacks: Bitboard)
    requires
        from < 64,
        -1 <= files <= 1,
        -1 <= ranks <= 1,
    ensures
        attacks == ray(occupancy, from as nat, files as int, ranks as int),
{
    let mut attacks: u64 = 0;
    let mut current = Square::from_index(from);
    let mut steps: usize = 0;
    proof {
        let whole = ray(occupancy, from as nat, files as int, ranks as int);
        assert(0u64 | whole == whole) by (bit_vector);
    }
    while steps < 7
        invariant
            steps <= 7,
            -1 <= files <= 1,
            -1 <= ranks <= 1,
            attacks | ray_within(
                occupancy,
                current.index(),
                files as int,
                ranks as int,
                (7 - steps) as nat,
            ) == ray(occupancy, from as nat, files as int, ranks as int),
        decreases 7 - steps,
    {
        match stepped(current, files, ranks) {
            None => {
                proof {
                    lemma_or_assoc(attacks, 0, 0);
                }
                return attacks;
            },
            Some(to) => {
                let target = to.to_index();
                let blocked = is_bit_set(occupancy, target);
                proof {
                    lemma_or_assoc(
                        attacks,
                        single(target as nat),
                        ray_within(
                            occupancy,
                            target as nat,
                            files as int,
                            ranks as int,
                            (7 - steps - 1) as nat,
                        ),
                    );
                }
                set_bit(&mut attacks, target);
                if blocked {
                    return attacks;
                }
                current = to;
                steps += 1;
            },
        }
    }
    proof {
        lemma_or_assoc(attacks, 0, 0);
    }
    attacks
}

impl Board {
    /// The squares a bishop on `square_index` attacks when `occupancy` is
    /// the set of occupied squares.
    pub fn get_bishop_attacks(&self, square_index: usize, occupancy: Bitboard) -> (attacks:
        Bitboard)
        requires
            square_index < 64,
        ensures
            attacks == bishop_attacks(occupancy, square_index as nat),
    {
        ray_attacks(occupancy, square_index, 1, 1) | ray_attacks(occupancy, square_index, 1, -1)
            | ray_attacks(occupancy, square_index, -1, -1) | ray_attacks(
            occupancy,
            square_index,
            -1,
            1,
        )
    }

    /// The squares a rook on `square_index` attacks when `occupancy` is the
    /// set of occupied squares.
    pub fn get_rook_attacks(&self, square_index: usize, occupancy: Bitboard) -> (attacks: Bitboard)
        requires
            square_index < 64,
        ensures
            attacks == rook_attacks(occupancy, square_index as nat),
    {
        ray_attacks(occupancy, square_index, 0, 1) | ray_attacks(occupancy, square_index, 1, 0)
            | ray_attacks(occupancy, square_index, 0, -1) | ray_attacks(
            occupancy,
            square_index,
            -1,
            0,
        )
    }
}

} // verus!
