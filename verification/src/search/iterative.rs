//! Iterative deepening: the search is run to depth one, two and so on, and
//! the best move of the last run is the move.

use crate::board::zobrist::Zobrist;
use crate::board::{Board, Position};
use crate::error::ChessError;
use crate::piece::Color;
use crate::search::negamax::{
    at_least_one, lemma_best_move_is_legal, lemma_search_finds_move, move_or_error,
    negamax_outcome, Outcome, Search,
};
use crate::search::transposition::{entry_at, TranspositionEntry, TranspositionTable};
use crate::square::Square;
use vstd::prelude::*;

verus! {

/// The best move filed in `table` under `key`.
pub open spec fn filed_move(table: Map<u64, TranspositionEntry>, key: u64) -> Option<
    (Square, Square),
> {
    match entry_at(table, key) {
        Some(entry) => entry.best_move,
        None => None,
    }
}

/// What the runs from depth `depth` to depth `last` return: the score of
/// the last run, the move that the cache holds for the position after it,
/// and the cache.
pub open spec fn deepening_outcome(
    keys: Zobrist,
    position: Position,
    depth: int,
    last: int,
    color: Color,
    so_far: Outcome,
) -> Outcome
    decreases last - depth + 1,
{
    if depth > last {
        so_far
    } else {
        let run = negamax_outcome(keys, position, depth, i32::MIN, i32::MAX, color, so_far.table);
        deepening_outcome(
            keys,
            position,
            depth + 1,
            last,
            color,
            Outcome {
                score: run.score,
                best: filed_move(run.table, keys.key_of(position)),
                table: run.table,
            },
        )
    }
}

/// What iterative deepening returns: nothing for a position without a
/// legal move, and otherwise what the runs from depth one to depth `last`
/// return.
pub open spec fn iterative_outcome(
    keys: Zobrist,
    position: Position,
    last: int,
    color: Color,
    table: Map<u64, TranspositionEntry>,
) -> Outcome {
    if position.legal_moves(color).len() == 0 {
        Outcome { score: 0, best: None, table }
    } else {
        deepening_outcome(
            keys,
            position,
            1,
            last,
            color,
            Outcome { score: 0, best: None, table },
        )
    }
}

/// Where the mover has a legal move, the move that iterative deepening
/// ends with is a legal move.
pub proof fn lemma_deepening_move_is_legal(
    keys: Zobrist,
    position: Position,
    depth: int,
    last: int,
    color: Color,
    so_far: Outcome,
)
    requires
        position.pieces.len() == 12,
        1 <= depth <= last,
        position.legal_moves(color).len() > 0,
    ensures
        deepening_outcome(keys, position, depth, last, color, so_far).best matches Some(found)
            ==> position.legal_moves(color).contains(found),
    decreases last - depth,
{
    let run = negamax_outcome(keys, position, depth, i32::MIN, i32::MAX, color, so_far.table);
    lemma_search_finds_move(keys, position, depth, i32::MIN, i32::MAX, color, so_far.table);
    lemma_best_move_is_legal(keys, position, depth, i32::MIN, i32::MAX, color, so_far.table);
    let next = Outcome {
        score: run.score,
        best: filed_move(run.table, keys.key_of(position)),
        table: run.table,
    };
    assert(next.best == run.best);
    if depth < last {
        lemma_deepening_move_is_legal(keys, position, depth + 1, last, color, next);
    } else {
        assert(deepening_outcome(keys, position, depth + 1, last, color, next) == next);
    }
}

/// Where the mover has a legal move, the runs of iterative deepening end
/// with a move: the best move of the last run.
pub proof fn lemma_deepening_finds_move(
    keys: Zobrist,
    position: Position,
    depth: int,
    last: int,
    color: Color,
    so_far: Outcome,
)
    requires
        position.pieces.len() == 12,
        1 <= depth <= last,
        position.legal_moves(color).len() > 0,
    ensures
        deepening_outcome(keys, position, depth, last, color, so_far).best is Some,
    decreases last - depth,
{
    let run = negamax_outcome(keys, position, depth, i32::MIN, i32::MAX, color, so_far.table);
    lemma_search_finds_move(keys, position, depth, i32::MIN, i32::MAX, color, so_far.table);
    let next = Outcome {
        score: run.score,
        best: filed_move(run.table, keys.key_of(position)),
        table: run.table,
    };
    assert(next.best is Some);
    if depth < last {
        lemma_deepening_finds_move(keys, position, depth + 1, last, color, next);
    } else {
        assert(deepening_outcome(keys, position, depth + 1, last, color, next) == next);
    }
}

impl Search {
    /// The best move for `color` by iterative deepening to depth
    /// `max_depth`, or at least to depth one: the move that the last run
    /// has filed in the cache for the position. `NoLegalMove` if there is
    /// none.
    pub fn iterative_deepening(
        board: &mut Board,
        max_depth: i32,
        color: Color,
        transposition_table: &mut TranspositionTable,
    ) -> (best: Result<(Square, Square), ChessError>)
        requires
            old(board).wf(),
            old(transposition_table).wf(),
        ensures
            best == move_or_error(
                iterative_outcome(
                    old(transposition_table).zobrist,
                    old(board)@,
                    at_least_one(max_depth) as int,
                    color,
                    old(transposition_table)@,
                ).best,
            ),
            final(transposition_table)@ == iterative_outcome(
                old(transposition_table).zobrist,
                old(board)@,
                at_least_one(max_depth) as int,
                color,
                old(transposition_table)@,
            ).table,
            best is Ok <==> old(board)@.legal_moves(color).len() > 0,
            best matches Ok(found) ==> old(board)@.legal(found, color),
            final(transposition_table).zobrist == old(transposition_table).zobrist,
            final(board)@ == old(board)@,
            final(board).past() == old(board).past(),
            final(board).wf(),
    {
        let last = if max_depth < 1 {
            1
        } else {
            max_depth
        };
        if board.generate_legal_moves(color).len() == 0 {
            return Err(ChessError::NoLegalMove);
        }
        proof {
            let start = Outcome { score: 0, best: None, table: transposition_table@ };
            lemma_deepening_finds_move(
                transposition_table.zobrist,
                board@,
                1,
                last as int,
                color,
                start,
            );
            lemma_deepening_move_is_legal(
                transposition_table.zobrist,
                board@,
                1,
                last as int,
                color,
                start,
            );
            let found = deepening_outcome(
                transposition_table.zobrist,
                board@,
                1,
                last as int,
                color,
                start,
            ).best;
            board@.lemma_legal_moves(color, found->0);
        }
        let zobrist_key = board.compute_zobrist_hash(&transposition_table.zobrist);
        let ghost keys = transposition_table.zobrist;
        let ghost position = board@;
        let ghost past = board.past();
        let ghost whole = deepening_outcome(
            keys,
            position,
            1,
            last as int,
            color,
            Outcome { score: 0, best: None, table: transposition_table@ },
        );
        let mut best_move: Option<(Square, Square)> = None;
        let mut best_eval: i32 = 0;
        let mut depth: i32 = 1;
        let mut finished = false;
        while !finished
            invariant
                1 <= depth <= last,
                board@ == position,
                board.past() == past,
                board.wf(),
                transposition_table.wf(),
                transposition_table.zobrist == keys,
                zobrist_key == keys.key_of(position),
                whole == (if finished {
                    Outcome { score: best_eval, best: best_move, table: transposition_table@ }
                } else {
                    deepening_outcome(
                        keys,
                        position,
                        depth as int,
                        last as int,
                        color,
                        Outcome { score: best_eval, best: best_move, table: transposition_table@ },
                    )
                }),
            decreases last - depth + (if finished { 0int } else { 1int }),
        {
            best_eval = Search::alpha_beta(
                board,
                depth,
                i32::MIN,
                i32::MAX,
                color,
                transposition_table,
            ).0;
            best_move = transposition_table.lookup_best_move(zobrist_key);
            if depth == last {
                finished = true;
                proof {
                    let done = Outcome {
                        score: best_eval,
                        best: best_move,
                        table: transposition_table@,
                    };
                    assert(deepening_outcome(
                        keys,
                        position,
                        depth + 1,
                        last as int,
                        color,
                        done,
                    ) == done);
                }
            } else {
                depth += 1;
            }
        }
        match best_move {
            Some(m) => Ok(m),
            None => Err(ChessError::NoLegalMove),
        }
    }
}

} // verus!
