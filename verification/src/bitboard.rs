//! Sixty-four-bit square sets and the primitive operations on them.
//!
//! A bitboard is read through [`bit_at`], its membership predicate, and
//! [`squares`], the set of its members. The lemmas in this module relate the
//! machine operations (`|`, `&`, `!`, shifts) to that reading, so that the
//! rest of the crate can reason about squares rather than about bits.

use vstd::prelude::*;

verus! {

/// A set of board squares, one bit per square; bit `i` stands for square `i`.
pub type Bitboard = u64;

/// The bitboard with every square set.
pub const FULL_BOARD: Bitboard = 0xFFFF_FFFF_FFFF_FFFF;

/// Whether square `square` is a member of `board`. Squares past 63 never are.
pub open spec fn bit_at(board: Bitboard, square: nat) -> bool {
    square < 64 && (board >> (square as u64)) & 1u64 == 1u64
}

/// The squares that are members of `board`.
pub open spec fn squares(board: Bitboard) -> Set<nat> {
    Set::new(|square: nat| bit_at(board, square))
}

/// The bitboard that holds `square` and nothing else.
pub open spec fn single(square: nat) -> Bitboard
    recommends
        square < 64,
{
    1u64 << (square as u64)
}

/// How many of the lowest `limit` squares are members of `board`.
pub open spec fn members_below(board: Bitboard, limit: nat) -> nat
    decreases limit,
{
    if limit == 0 {
        0
    } else {
        members_below(board, (limit - 1) as nat) + if bit_at(board, (limit - 1) as nat) {
            1nat
        } else {
            0nat
        }
    }
}

/// The number of members of `board`.
pub open spec fn population(board: Bitboard) -> nat {
    members_below(board, 64)
}

/// No count of members exceeds the number of squares counted.
pub proof fn lemma_members_below_bound(board: Bitboard, limit: nat)
    ensures
        members_below(board, limit) <= limit,
    decreases limit,
{
    if limit > 0 {
        lemma_members_below_bound(board, (limit - 1) as nat);
    }
}

/// The empty bitboard has no member.
pub proof fn lemma_empty()
    ensures
        forall|i: nat| !#[trigger] bit_at(0, i),
        squares(0) =~= Set::<nat>::empty(),
{
    assert forall|i: nat| !#[trigger] bit_at(0, i) by {
        if i < 64 {
            let iu = i as u64;
            assert((0u64 >> iu) & 1u64 != 1u64) by (bit_vector);
        }
    }
}

/// The full bitboard holds every square.
pub proof fn lemma_full()
    ensures
        forall|i: nat| i < 64 ==> #[trigger] bit_at(FULL_BOARD, i),
{
    assert forall|i: nat| i < 64 implies #[trigger] bit_at(FULL_BOARD, i) by {
        let iu = i as u64;
        assert((0xFFFF_FFFF_FFFF_FFFFu64 >> iu) & 1u64 == 1u64) by (bit_vector)
            requires
                iu < 64,
        ;
    }
}

/// `single(s)` holds exactly `s`.
pub proof fn lemma_single(s: nat)
    requires
        s < 64,
    ensures
        forall|i: nat| #[trigger] bit_at(single(s), i) == (i == s),
        single(s) != 0,
{
    let su = s as u64;
    assert forall|i: nat| #[trigger] bit_at(single(s), i) == (i == s) by {
        if i < 64 {
            let iu = i as u64;
            assert((((1u64 << su) >> iu) & 1u64 == 1u64) == (iu == su)) by (bit_vector)
                requires
                    su < 64,
                    iu < 64,
            ;
        }
    }
    assert(bit_at(single(s), s));
    lemma_empty();
}

/// Union of bitboards is union of their members.
pub proof fn lemma_or(a: Bitboard, b: Bitboard)
    ensures
        forall|i: nat| #[trigger] bit_at(a | b, i) == (bit_at(a, i) || bit_at(b, i)),
        squares(a | b) =~= squares(a).union(squares(b)),
{
    assert forall|i: nat| #[trigger] bit_at(a | b, i) == (bit_at(a, i) || bit_at(b, i)) by {
        if i < 64 {
            let iu = i as u64;
            assert((((a | b) >> iu) & 1u64 == 1u64) == (((a >> iu) & 1u64 == 1u64) || ((b >> iu)
                & 1u64 == 1u64))) by (bit_vector);
        }
    }
}

/// Intersection of bitboards is intersection of their members.
pub proof fn lemma_and(a: Bitboard, b: Bitboard)
    ensures
        forall|i: nat| #[trigger] bit_at(a & b, i) == (bit_at(a, i) && bit_at(b, i)),
        squares(a & b) =~= squares(a).intersect(squares(b)),
{
    assert forall|i: nat| #[trigger] bit_at(a & b, i) == (bit_at(a, i) && bit_at(b, i)) by {
        if i < 64 {
            let iu = i as u64;
            assert((((a & b) >> iu) & 1u64 == 1u64) == (((a >> iu) & 1u64 == 1u64) && ((b >> iu)
                & 1u64 == 1u64))) by (bit_vector);
        }
    }
}

/// The complement holds exactly the squares of the board that the bitboard
/// does not.
pub proof fn lemma_not(a: Bitboard)
    ensures
        forall|i: nat| i < 64 ==> #[trigger] bit_at(!a, i) == !bit_at(a, i),
{
    assert forall|i: nat| i < 64 implies #[trigger] bit_at(!a, i) == !bit_at(a, i) by {
        let iu = i as u64;
        assert((((!a) >> iu) & 1u64 == 1u64) == !((a >> iu) & 1u64 == 1u64)) by (bit_vector)
            requires
                iu < 64,
        ;
    }
}

/// Adding one square to a bitboard.
pub proof fn lemma_insert(a: Bitboard, s: nat)
    requires
        s < 64,
    ensures
        forall|i: nat| #[trigger] bit_at(a | single(s), i) == (bit_at(a, i) || i == s),
        squares(a | single(s)) =~= squares(a).insert(s),
{
    lemma_or(a, single(s));
    lemma_single(s);
}

/// Removing one square from a bitboard.
pub proof fn lemma_remove(a: Bitboard, s: nat)
    requires
        s < 64,
    ensures
        forall|i: nat| #[trigger] bit_at(a & !single(s), i) == (bit_at(a, i) && i != s),
        squares(a & !single(s)) =~= squares(a).remove(s),
{
    lemma_and(a, !single(s));
    lemma_not(single(s));
    lemma_single(s);
    assert forall|i: nat| #[trigger] bit_at(a & !single(s), i) == (bit_at(a, i) && i != s) by {
        if i < 64 {
            assert(bit_at(!single(s), i) == !bit_at(single(s), i));
        }
    }
}

/// Two bitboards with the same members are the same bitboard.
pub proof fn lemma_extensional(a: Bitboard, b: Bitboard)
    requires
        forall|i: nat| i < 64 ==> bit_at(a, i) == bit_at(b, i),
    ensures
        a == b,
{
    if a != b {
        let x = a ^ b;
        assert(x != 0) by (bit_vector)
            requires
                x == a ^ b,
                a != b,
        ;
        vstd::std_specs::bits::axiom_u64_trailing_zeros(x);
        let t = vstd::std_specs::bits::u64_trailing_zeros(x) as u64;
        assert(t < 64);
        assert(((a >> t) & 1u64 == 1u64) != ((b >> t) & 1u64 == 1u64)) by (bit_vector)
            requires
                x == a ^ b,
                t < 64,
                (x >> t) & 1u64 == 1u64,
        ;
        assert(bit_at(a, t as nat) != bit_at(b, t as nat));
    }
}

/// A bitboard is empty exactly when it has no member.
pub proof fn lemma_nonzero_has_member(a: Bitboard)
    ensures
        a != 0 <==> exists|i: nat| bit_at(a, i),
{
    lemma_empty();
    if a != 0 {
        vstd::std_specs::bits::axiom_u64_trailing_zeros(a);
        let t = vstd::std_specs::bits::u64_trailing_zeros(a);
        assert(bit_at(a, t as nat));
    }
}

/// The lowest member of a bitboard, or 64 for the empty bitboard.
pub open spec fn lowest(board: Bitboard) -> nat {
    vstd::std_specs::bits::u64_trailing_zeros(board) as nat
}

/// `lowest` names a member below which there is none.
pub proof fn lemma_lowest(board: Bitboard)
    ensures
        board == 0 <==> lowest(board) == 64,
        lowest(board) <= 64,
        board != 0 ==> bit_at(board, lowest(board)),
        forall|i: nat| i < lowest(board) ==> !#[trigger] bit_at(board, i),
{
    vstd::std_specs::bits::axiom_u64_trailing_zeros(board);
    let t = vstd::std_specs::bits::u64_trailing_zeros(board);
    assert forall|i: nat| i < lowest(board) implies !#[trigger] bit_at(board, i) by {
        let iu = i as u64;
        assert((board >> iu) & 1u64 == 0u64);
    }
}

/// The members of `board` below `limit`, in ascending order.
pub open spec fn members_below_list(board: Bitboard, limit: nat) -> Seq<nat>
    decreases limit,
{
    if limit == 0 {
        Seq::empty()
    } else {
        let rest = members_below_list(board, (limit - 1) as nat);
        if bit_at(board, (limit - 1) as nat) {
            rest.push((limit - 1) as nat)
        } else {
            rest
        }
    }
}

/// The members of `board`, in ascending order.
pub open spec fn member_list(board: Bitboard) -> Seq<nat> {
    members_below_list(board, 64)
}

/// Where a bitboard has no member from `low` up to `high`, the lists of its
/// members below the two limits are the same.
pub proof fn lemma_members_gap(board: Bitboard, low: nat, high: nat)
    requires
        low <= high,
        forall|i: nat| low <= i < high ==> !bit_at(board, i),
    ensures
        members_below_list(board, high) == members_below_list(board, low),
    decreases high - low,
{
    if low < high {
        lemma_members_gap(board, low, (high - 1) as nat);
    }
}

/// Every entry of the list of members is a member, and lies below the limit.
pub proof fn lemma_members_listed(board: Bitboard, limit: nat)
    ensures
        forall|k: int|
            0 <= k < members_below_list(board, limit).len() ==> bit_at(
                board,
                #[trigger] members_below_list(board, limit)[k],
            ) && members_below_list(board, limit)[k] < limit,
        members_below_list(board, limit).len() <= limit,
    decreases limit,
{
    if limit > 0 {
        lemma_members_listed(board, (limit - 1) as nat);
    }
}

/// Union is associative.
pub proof fn lemma_or_assoc(a: Bitboard, b: Bitboard, c: Bitboard)
    ensures
        (a | b) | c == a | (b | c),
        a | 0 == a,
{
    assert((a | b) | c == a | (b | c)) by (bit_vector);
    assert(a | 0 == a) by (bit_vector);
}

/// Lists the members of `board` in ascending order.
pub fn list_members(board: Bitboard) -> (list: Vec<usize>)
    ensures
        list@.len() == member_list(board).len(),
        forall|k: int| 0 <= k < list@.len() ==> #[trigger] list@[k] == member_list(board)[k],
        forall|k: int| 0 <= k < list@.len() ==> #[trigger] list@[k] < 64,
{
    let mut list: Vec<usize> = Vec::new();
    let mut rest: u64 = board;
    let mut done: usize = 0;
    while rest != 0
        invariant
            done <= 64,
            forall|s: nat| #[trigger] bit_at(rest, s) == (bit_at(board, s) && s >= done),
            list@.len() == members_below_list(board, done as nat).len(),
            forall|k: int|
                0 <= k < list@.len() ==> #[trigger] list@[k] == members_below_list(
                    board,
                    done as nat,
                )[k],
        decreases 64 - done,
    {
        let low = get_lsb(rest);
        proof {
            assert(bit_at(rest, low as nat));
            assert forall|i: nat| done <= i < low implies !bit_at(board, i) by {
                assert(!bit_at(rest, i));
            }
            lemma_members_gap(board, done as nat, low as nat);
            assert(bit_at(board, low as nat));
        }
        list.push(low);
        clear_bit(&mut rest, low);
        proof {
            assert(squares(rest).contains(low as nat) == bit_at(rest, low as nat));
            assert forall|s: nat| #[trigger]
                bit_at(rest, s) == (bit_at(board, s) && s >= low + 1) by {
                assert(squares(rest).contains(s) == bit_at(rest, s));
            }
        }
        done = low + 1;
    }
    proof {
        lemma_empty();
        assert forall|i: nat| done <= i < 64 implies !bit_at(board, i) by {
            assert(!bit_at(rest, i));
        }
        lemma_members_gap(board, done as nat, 64);
        lemma_members_listed(board, 64);
    }
    list
}

/// Adds `square` to `board`.
pub fn set_bit(board: &mut Bitboard, square: usize)
    requires
        square < 64,
    ensures
        *final(board) == *old(board) | single(square as nat),
        squares(*final(board)) == squares(*old(board)).insert(square as nat),
{
    proof {
        lemma_insert(*board, square as nat);
    }
    *board |= 1u64 << square;
}

/// Removes `square` from `board`.
pub fn clear_bit(board: &mut Bitboard, square: usize)
    requires
        square < 64,
    ensures
        *final(board) == *old(board) & !single(square as nat),
        squares(*final(board)) == squares(*old(board)).remove(square as nat),
{
    proof {
        lemma_remove(*board, square as nat);
    }
    *board &= !(1u64 << square);
}

/// Reports whether `square` is a member of `board`.
pub fn is_bit_set(board: Bitboard, square: usize) -> (set: bool)
    requires
        square < 64,
    ensures
        set == bit_at(board, square as nat),
{
    let s: u64 = square as u64;
    assert(((board & (1u64 << s)) != 0) == ((board >> s) & 1u64 == 1u64)) by (bit_vector)
        requires
            s < 64,
    ;
    (board & (1u64 << s)) != 0
}

/// `u64::count_ones` of the standard library: the number of one bits in the
/// binary representation, stated here as the count of member squares.
pub assume_specification[ u64::count_ones ](board: u64) -> (count: u32)
    ensures
        count == population(board),
;

/// Counts the members of `board`.
pub fn count_bits(board: Bitboard) -> (count: u32)
    ensures
        count == population(board),
        count <= 64,
{
    proof {
        lemma_members_below_bound(board, 64);
    }
    board.count_ones()
}

/// Index of the lowest member of `board`; 64 when `board` is empty.
pub fn get_lsb(board: Bitboard) -> (index: usize)
    ensures
        index == lowest(board),
        index <= 64,
        board != 0 ==> index < 64 && bit_at(board, index as nat),
        forall|i: nat| i < index ==> !#[trigger] bit_at(board, i),
{
    proof {
        lemma_lowest(board);
    }
    board.trailing_zeros() as usize
}

} // verus!
