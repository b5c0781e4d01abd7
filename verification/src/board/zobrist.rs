//! Position keys: a 64-bit fingerprint of a position, folded by exclusive
//! or from a table of keys.
//!
//! The table is drawn from a generator with a fixed seed, so every table is
//! the same table. The key of a position depends on the pieces, the castling
//! rights, the file of the en-passant target and the side to move, and on
//! nothing else: positions that agree in these have the same key, by
//! whatever moves they were reached.

use crate::bitboard::{list_members, member_list, Bitboard};
use crate::board::{Board, Position};
use crate::piece::Color;
use rand::rngs::StdRng;
use rand::{Rng, SeedableRng};
use vstd::prelude::*;

verus! {

/// The seed of the key table.
pub const KEY_SEED: u64 = 0;

/// The number of keys in a table: one for the side to move, 1536 for the
/// pieces, 16 for the castling rights and 8 for the en-passant files.
pub const KEY_COUNT: usize = 1561;

/// The first `count` values that the standard generator of the `rand` crate
/// yields after it has been seeded with `seed`.
pub uninterp spec fn seeded_keys(seed: u64, count: nat) -> Seq<u64>;

/// Draws `count` keys from `rand`'s `StdRng`, seeded by
/// `SeedableRng::seed_from_u64` and read through `Rng::random_iter`. The
/// generator is deterministic, so the keys are a function of the seed and
/// the count; the iterator never ends, so there are `count` of them.
#[verifier::external_body]
fn draw_seeded_keys(seed: u64, count: usize) -> (keys: Vec<u64>)
    ensures
        keys@ == seeded_keys(seed, count as nat),
        keys@.len() == count,
{
    StdRng::seed_from_u64(seed).random_iter::<u64>().take(count).collect()
}

/// The table of keys from which position keys are folded.
#[derive(Clone, Debug)]
pub struct Zobrist {
    /// A key for each side, kind of piece and square: the key of side `c`,
    /// kind `p` and square `s` is at `(c * 12 + p) * 64 + s`.
    pub piece_keys: Vec<u64>,
    /// A key for each value of the castling rights.
    pub castling_keys: Vec<u64>,
    /// A key for each file of an en-passant target.
    pub en_passant_keys: Vec<u64>,
    /// The key of Black to move.
    pub side_to_move_key: u64,
}

/// Where the keys of piece bitboard `index` begin in the table.
pub open spec fn key_base(index: int) -> int {
    ((index / 6) * 12 + index % 6) * 64
}

/// The keys of the first `count` of the squares `members`, folded together.
pub open spec fn squares_key(keys: Seq<u64>, base: int, members: Seq<nat>, count: nat) -> u64
    decreases count,
{
    if count == 0 || count > members.len() {
        0
    } else {
        squares_key(keys, base, members, (count - 1) as nat) ^ keys[base + members[count - 1]]
    }
}

/// The keys of the pieces on the first `count` bitboards, folded together.
pub open spec fn pieces_key(keys: Seq<u64>, pieces: Seq<Bitboard>, count: nat) -> u64
    decreases count,
{
    if count == 0 || count > 12 {
        0
    } else {
        let members = member_list(pieces[count - 1]);
        pieces_key(keys, pieces, (count - 1) as nat) ^ squares_key(
            keys,
            key_base(count - 1),
            members,
            members.len(),
        )
    }
}

impl Zobrist {
    /// The invariant of a table: it has a key for everything that is keyed.
    pub open spec fn wf(&self) -> bool {
        &&& self.piece_keys@.len() == 1536
        &&& self.castling_keys@.len() == 16
        &&& self.en_passant_keys@.len() == 8
    }

    /// The key of the en-passant target: that of its file, or nothing.
    pub open spec fn target_key(&self, en_passant: Option<crate::square::Square>) -> u64 {
        match en_passant {
            Some(square) => self.en_passant_keys@[square.file_index() as int],
            None => 0,
        }
    }

    /// The key of the side to move: the side key for Black, nothing for
    /// White.
    pub open spec fn side_key(&self, side: Color) -> u64 {
        if side == Color::Black {
            self.side_to_move_key
        } else {
            0
        }
    }

    /// The key of a position: the keys of its pieces, of its castling
    /// rights, of the file of its en-passant target and of the side to move,
    /// folded together by exclusive or.
    pub open spec fn key_of(&self, position: Position) -> u64 {
        pieces_key(self.piece_keys@, position.pieces, 12) ^ self.castling_keys@[(
        position.castling_rights & 15) as int] ^ self.target_key(position.en_passant)
            ^ self.side_key(position.side_to_move)
    }

    /// Whether the table is the table of the fixed seed: the side key is
    /// the first key drawn, then come the piece keys, the castling keys and
    /// the en-passant keys.
    pub open spec fn standard(&self) -> bool {
        &&& self.side_to_move_key == seeded_keys(KEY_SEED, KEY_COUNT as nat)[0]
        &&& self.piece_keys@ == seeded_keys(KEY_SEED, KEY_COUNT as nat).subrange(1, 1537)
        &&& self.castling_keys@ == seeded_keys(KEY_SEED, KEY_COUNT as nat).subrange(1537, 1553)
        &&& self.en_passant_keys@ == seeded_keys(KEY_SEED, KEY_COUNT as nat).subrange(1553, 1561)
    }

    /// Whether the table meets its invariant.
    pub fn is_valid(&self) -> (valid: bool)
        ensures
            valid == self.wf(),
    {
        self.piece_keys.len() == 1536 && self.castling_keys.len() == 16
            && self.en_passant_keys.len() == 8
    }

    /// The table drawn from the fixed seed: the side key first, then the
    /// piece keys, the castling keys and the en-passant keys.
    pub fn new() -> (table: Zobrist)
        ensures
            table.wf(),
            table.standard(),
    {
        let keys = draw_seeded_keys(KEY_SEED, KEY_COUNT);
        Zobrist {
            piece_keys: copy_range(&keys, 1, 1537),
            castling_keys: copy_range(&keys, 1537, 1553),
            en_passant_keys: copy_range(&keys, 1553, 1561),
            side_to_move_key: keys[0],
        }
    }
}

impl Default for Zobrist {
    fn default() -> (table: Zobrist)
        ensures
            table.wf(),
            table.standard(),
    {
        Zobrist::new()
    }
}

/// The keys from position `start` up to, not including, `end`.
fn copy_range(keys: &Vec<u64>, start: usize, end: usize) -> (part: Vec<u64>)
    requires
        start <= end <= keys@.len(),
    ensures
        part@ == keys@.subrange(start as int, end as int),
{
    let mut part: Vec<u64> = Vec::new();
    let mut i: usize = start;
    while i < end
        invariant
            start <= i <= end <= keys@.len(),
            part@ == keys@.subrange(start as int, i as int),
        decreases end - i,
    {
        part.push(keys[i]);
        assert(part@ =~= keys@.subrange(start as int, i + 1));
        i += 1;
    }
    part
}

/// The key depends on the pieces, the castling rights, the en-passant target
/// and the side to move only: positions that agree in these have the same
/// key, however they were reached and whatever their clocks say.
pub proof fn lemma_same_state_same_key(table: Zobrist, a: Position, b: Position)
    requires
        a.pieces == b.pieces,
        a.castling_rights == b.castling_rights,
        a.en_passant == b.en_passant,
        a.side_to_move == b.side_to_move,
    ensures
        table.key_of(a) == table.key_of(b),
{
}

/// Passing and taking the pass back leaves the key as it was.
pub proof fn lemma_null_move_key(table: Zobrist, position: Position)
    ensures
        table.key_of(position.after_null_move().after_null_move()) == table.key_of(position),
{
}

impl Board {
    /// The key of the position under the table `zobrist`.
    pub fn compute_zobrist_hash(&self, zobrist: &Zobrist) -> (hash: u64)
        requires
            zobrist.wf(),
        ensures
            hash == zobrist.key_of(self@),
    {
        let mut hash: u64 = 0;
        let mut index: usize = 0;
        while index < 12
            invariant
                index <= 12,
                zobrist.wf(),
                hash == pieces_key(zobrist.piece_keys@, self@.pieces, index as nat),
            decreases 12 - index,
        {
            let base: usize = ((index / 6) * 12 + index % 6) * 64;
            let members = list_members(self.pieces[index]);
            let ghost listed = member_list(self@.pieces[index as int]);
            let mut part: u64 = 0;
            let mut i: usize = 0;
            while i < members.len()
                invariant
                    i <= members@.len(),
                    zobrist.wf(),
                    index < 12,
                    base == key_base(index as int),
                    members@.len() == listed.len(),
                    forall|k: int| 0 <= k < members@.len() ==> #[trigger] members@[k] == listed[k],
                    forall|k: int| 0 <= k < members@.len() ==> #[trigger] members@[k] < 64,
                    part == squares_key(zobrist.piece_keys@, base as int, listed, i as nat),
                decreases members@.len() - i,
            {
                part = part ^ zobrist.piece_keys[base + members[i]];
                i += 1;
            }
            hash = hash ^ part;
            index += 1;
        }
        let held: u8 = self.castling_rights;
        let rights: u8 = held & 15;
        assert(rights < 16) by (bit_vector)
            requires
                rights == held & 15,
        ;
        hash = hash ^ zobrist.castling_keys[rights as usize];
        match self.en_passant {
            Some(en_passant_square) => {
                hash = hash ^ zobrist.en_passant_keys[en_passant_square.file_usize()];
            },
            None => {
                assert(hash ^ 0 == hash) by (bit_vector);
            },
        }
        if self.side_to_move == Color::Black {
            hash = hash ^ zobrist.side_to_move_key;
        } else {
            assert(hash ^ 0 == hash) by (bit_vector);
        }
        hash
    }
}

} // verus!
