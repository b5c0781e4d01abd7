//! The transposition cache: what the search found out about the positions
//! it has expanded, by position key.

use crate::board::zobrist::Zobrist;
use crate::square::Square;
use std::collections::HashMap;
use vstd::prelude::*;

verus! {

/// What the search found out about one position.
#[derive(Copy, Clone, Debug)]
pub struct TranspositionEntry {
    /// The depth that was left when the position was searched.
    pub depth: i32,
    /// The score of the position for the side that was to move in it.
    pub score: i32,
    /// The best move found, if any move was searched.
    pub best_move: Option<(Square, Square)>,
}

/// How a stored score relates to the true score of its position.
#[derive(Copy, Clone, Debug, PartialEq, Eq, Structural)]
pub enum NodeType {
    /// The score is the true score.
    Exact,
    /// The score is an upper bound.
    Alpha,
    /// The score is a lower bound.
    Beta,
}

/// The cache, with the table of keys by which positions are filed in it.
pub struct TranspositionTable {
    pub table: HashMap<u64, TranspositionEntry>,
    pub zobrist: Zobrist,
}

/// The entry filed under `key` in `entries`, if there is one.
pub open spec fn entry_at(entries: Map<u64, TranspositionEntry>, key: u64) -> Option<
    TranspositionEntry,
> {
    if entries.dom().contains(key) {
        Some(entries[key])
    } else {
        None
    }
}

/// An entry that has been stored is the entry that is found under its key.
pub proof fn lemma_store_then_get(
    entries: Map<u64, TranspositionEntry>,
    key: u64,
    entry: TranspositionEntry,
)
    ensures
        entry_at(entries.insert(key, entry), key) == Some(entry),
{
}

/// Storing under one key leaves what is filed under every other key.
pub proof fn lemma_store_keeps_others(
    entries: Map<u64, TranspositionEntry>,
    key: u64,
    entry: TranspositionEntry,
    other: u64,
)
    requires
        other != key,
    ensures
        entry_at(entries.insert(key, entry), other) == entry_at(entries, other),
{
}

impl View for TranspositionTable {
    type V = Map<u64, TranspositionEntry>;

    open spec fn view(&self) -> Map<u64, TranspositionEntry> {
        self.table@
    }
}

impl TranspositionTable {
    /// The invariant of a cache: its table of keys is complete.
    pub open spec fn wf(&self) -> bool {
        self.zobrist.wf()
    }

    /// Whether the cache meets its invariant.
    pub fn is_valid(&self) -> (valid: bool)
        ensures
            valid == self.wf(),
    {
        self.zobrist.is_valid()
    }

    /// An empty cache.
    pub fn new() -> (cache: TranspositionTable)
        ensures
            cache@ == Map::<u64, TranspositionEntry>::empty(),
            cache.zobrist.standard(),
            cache.wf(),
    {
        TranspositionTable { table: HashMap::new(), zobrist: Zobrist::new() }
    }

    /// The entry filed under `key`, if there is one.
    pub fn get(&self, key: u64) -> (entry: Option<TranspositionEntry>)
        ensures
            entry == entry_at(self@, key),
    {
        broadcast use vstd::std_specs::hash::group_hash_axioms;

        match self.table.get(&key) {
            Some(entry) => Some(*entry),
            None => None,
        }
    }

    /// Files `entry` under `key`, in place of what was filed there.
    pub fn insert(&mut self, key: u64, entry: TranspositionEntry)
        ensures
            final(self)@ == old(self)@.insert(key, entry),
            final(self).zobrist == old(self).zobrist,
    {
        broadcast use vstd::std_specs::hash::group_hash_axioms;

        self.table.insert(key, entry);
    }

    /// Files `entry` under the position key `zobrist_key`, in place of what
    /// was filed there.
    pub fn store(&mut self, zobrist_key: u64, entry: TranspositionEntry)
        ensures
            final(self)@ == old(self)@.insert(zobrist_key, entry),
            final(self).zobrist == old(self).zobrist,
    {
        self.insert(zobrist_key, entry);
    }

    /// The best move filed under the position key `zobrist_key`: `None` if
    /// nothing is filed there, or no move was found.
    pub fn lookup_best_move(&self, zobrist_key: u64) -> (best: Option<(Square, Square)>)
        ensures
            best == match entry_at(self@, zobrist_key) {
                Some(entry) => entry.best_move,
                None => None,
            },
    {
        match self.get(zobrist_key) {
            Some(entry) => entry.best_move,
            None => None,
        }
    }
}

impl Default for TranspositionTable {
    fn default() -> (cache: TranspositionTable)
        ensures
            cache@ == Map::<u64, TranspositionEntry>::empty(),
            cache.zobrist.standard(),
            cache.wf(),
    {
        TranspositionTable::new()
    }
}

} // verus!
