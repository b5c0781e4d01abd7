//! Opening-book records: sixteen bytes each, with the position key, the
//! move, its weight and a learn field, all big-endian.

use crate::error::ChessError;
use crate::square::Square;
use vstd::prelude::*;

verus! {

/// The length of a book record in bytes.
pub const RECORD_LENGTH: usize = 16;

/// One record of an opening book.
#[derive(Copy, Clone, Debug, PartialEq, Eq, Structural)]
pub struct PolyglotEntry {
    /// The key of the position.
    pub key: u64,
    /// The move: the target square in bits 0 to 5, the source square in
    /// bits 6 to 11.
    pub move_: u16,
    /// How much the book favours the move.
    pub weight: u16,
    /// The learn field, which the engine does not read.
    pub learn: u32,
    /// Not part of a record; always zero.
    pub next: u32,
}

/// The number that two bytes write, the high byte first.
pub open spec fn be_u16(bytes: Seq<u8>, at: int) -> u16 {
    ((bytes[at] as u16) << 8) | (bytes[at + 1] as u16)
}

/// The number that four bytes write, the highest byte first.
pub open spec fn be_u32(bytes: Seq<u8>, at: int) -> u32 {
    ((bytes[at] as u32) << 24) | ((bytes[at + 1] as u32) << 16) | ((bytes[at + 2] as u32) << 8)
        | (bytes[at + 3] as u32)
}

/// The number that eight bytes write, the highest byte first.
pub open spec fn be_u64(bytes: Seq<u8>, at: int) -> u64 {
    ((be_u32(bytes, at) as u64) << 32) | (be_u32(bytes, at + 4) as u64)
}

/// The record that the sixteen bytes from `at` on write.
pub open spec fn record_at(bytes: Seq<u8>, at: int) -> PolyglotEntry {
    PolyglotEntry {
        key: be_u64(bytes, at),
        move_: be_u16(bytes, at + 8),
        weight: be_u16(bytes, at + 10),
        learn: be_u32(bytes, at + 12),
        next: 0,
    }
}

/// The source square of a book move, as an index.
pub open spec fn move_source(book_move: u16) -> nat {
    ((book_move / 64) % 64) as nat
}

/// The target square of a book move, as an index.
pub open spec fn move_target(book_move: u16) -> nat {
    (book_move % 64) as nat
}

/// The first `count` records that `bytes` writes.
pub open spec fn records_of(bytes: Seq<u8>, count: nat) -> Seq<PolyglotEntry>
    decreases count,
{
    if count == 0 {
        Seq::empty()
    } else {
        records_of(bytes, (count - 1) as nat).push(record_at(bytes, (count - 1) * 16))
    }
}

/// Among the first `count` of `entries`, the one for the position `key`
/// with the greatest weight, and of those the first.
pub open spec fn best_entry(entries: Seq<PolyglotEntry>, key: u64, count: nat) -> Option<
    PolyglotEntry,
>
    decreases count,
{
    if count == 0 || count > entries.len() {
        None
    } else {
        let before = best_entry(entries, key, (count - 1) as nat);
        let entry = entries[count - 1];
        if entry.key != key {
            before
        } else {
            match before {
                Some(best) => if entry.weight > best.weight {
                    Some(entry)
                } else {
                    before
                },
                None => Some(entry),
            }
        }
    }
}

/// The number that two bytes write, the high byte first.
fn read_u16(bytes: &[u8], at: usize) -> (value: u16)
    requires
        at + 2 <= bytes@.len(),
    ensures
        value == be_u16(bytes@, at as int),
{
    let length = bytes.len();
    ((bytes[at] as u16) << 8) | (bytes[at + 1] as u16)
}

/// The number that four bytes write, the highest byte first.
fn read_u32(bytes: &[u8], at: usize) -> (value: u32)
    requires
        at + 4 <= bytes@.len(),
    ensures
        value == be_u32(bytes@, at as int),
{
    let length = bytes.len();
    ((bytes[at] as u32) << 24) | ((bytes[at + 1] as u32) << 16) | ((bytes[at + 2] as u32) << 8) | (
    bytes[at + 3] as u32)
}

/// The record that the sixteen bytes from `at` on write.
fn read_record(bytes: &[u8], at: usize) -> (entry: PolyglotEntry)
    requires
        at + 16 <= bytes@.len(),
    ensures
        entry == record_at(bytes@, at as int),
{
    let length = bytes.len();
    let high = read_u32(bytes, at);
    let low = read_u32(bytes, at + 4);
    PolyglotEntry {
        key: ((high as u64) << 32) | (low as u64),
        move_: read_u16(bytes, at + 8),
        weight: read_u16(bytes, at + 10),
        learn: read_u32(bytes, at + 12),
        next: 0,
    }
}

impl PolyglotEntry {
    /// The record that the first sixteen of `bytes` write.
    pub fn from_bytes(bytes: &[u8]) -> (entry: PolyglotEntry)
        requires
            bytes@.len() >= 16,
        ensures
            entry == record_at(bytes@, 0),
    {
        read_record(bytes, 0)
    }

    /// The squares of a book move: the source from bits 6 to 11, the target
    /// from bits 0 to 5.
    pub fn polyglot_move_to_squares(mv: u16) -> (squares: (Square, Square))
        ensures
            squares.0.index() == move_source(mv),
            squares.1.index() == move_target(mv),
    {
        let source: u16 = (mv >> 6) & 0x3f;
        let target: u16 = mv & 0x3f;
        assert(source == (mv / 64) % 64 && source < 64) by (bit_vector)
            requires
                source == (mv >> 6) & 0x3f,
        ;
        assert(target == mv % 64 && target < 64) by (bit_vector)
            requires
                target == mv & 0x3f,
        ;
        let from_square = Square::from_index(source as usize);
        let to_square = Square::from_index(target as usize);
        (from_square, to_square)
    }
}

/// The records of a book given as bytes. `BookLoadFailure` if the bytes end
/// inside a record.
pub fn decode_book(bytes: &[u8]) -> (entries: Result<Vec<PolyglotEntry>, ChessError>)
    ensures
        bytes@.len() % 16 == 0 ==> entries is Ok && entries->Ok_0@ == records_of(
            bytes@,
            bytes@.len() / 16,
        ),
        bytes@.len() % 16 != 0 ==> entries is Err && entries->Err_0 == ChessError::BookLoadFailure,
{
    if bytes.len() % 16 != 0 {
        return Err(ChessError::BookLoadFailure);
    }
    let count = bytes.len() / 16;
    let mut entries: Vec<PolyglotEntry> = Vec::new();
    let mut i: usize = 0;
    while i < count
        invariant
            i <= count,
            count * 16 == bytes@.len(),
            bytes@.len() <= usize::MAX,
            entries@ == records_of(bytes@, i as nat),
        decreases count - i,
    {
        entries.push(read_record(bytes, i * 16));
        i += 1;
    }
    Ok(entries)
}

/// The record for the position `zobrist_hash` that the book favours most:
/// the one with the greatest weight, and of those the first.
pub fn find_polyglot_move(entries: &[PolyglotEntry], zobrist_hash: u64) -> (best: Option<
    PolyglotEntry,
>)
    ensures
        best == best_entry(entries@, zobrist_hash, entries@.len()),
{
    let mut best_entry: Option<PolyglotEntry> = None;
    let mut i: usize = 0;
    while i < entries.len()
        invariant
            i <= entries@.len(),
            best_entry == self::best_entry(entries@, zobrist_hash, i as nat),
        decreases entries@.len() - i,
    {
        let entry = entries[i];
        if entry.key == zobrist_hash {
            match best_entry {
                Some(current_best) => {
                    if entry.weight > current_best.weight {
                        best_entry = Some(entry);
                    }
                },
                None => {
                    best_entry = Some(entry);
                },
            }
        }
        i += 1;
    }
    best_entry
}

} // verus!
