//! Null-move pruning: if the position is good enough even after passing,
//! the full search is spared.

use crate::board::zobrist::Zobrist;
use crate::board::{Board, Position};
use crate::piece::Color;
use crate::search::negamax::{negamax_outcome, negated, negation, Outcome, Search};
use crate::search::transposition::{TranspositionEntry, TranspositionTable};
use vstd::prelude::*;

verus! {

/// By how much the search after a pass is shallower, beyond the ply of the
/// pass itself.
pub const NULL_MOVE_REDUCTION: i32 = 2;

/// What the search with null-move pruning returns.
///
/// At a depth of one or less, and in an endgame, it is the plain search.
/// Otherwise the mover passes and the opponent is searched three plies
/// shallower. If the score still meets `beta`, `beta` is the score;
/// otherwise the plain search follows.
pub open spec fn null_move_outcome(
    keys: Zobrist,
    position: Position,
    depth: int,
    alpha: i32,
    beta: i32,
    color: Color,
    table: Map<u64, TranspositionEntry>,
) -> Outcome {
    if depth <= 1 || position.endgame() {
        negamax_outcome(keys, position, depth, alpha, beta, color, table)
    } else {
        let probe = negamax_outcome(
            keys,
            position.after_null_move(),
            depth - 1 - NULL_MOVE_REDUCTION,
            negation(beta),
            negation(alpha),
            color.other(),
            table,
        );
        if negation(probe.score) >= beta {
            Outcome { score: beta, best: None, table: probe.table }
        } else {
            negamax_outcome(keys, position, depth, alpha, beta, color, probe.table)
        }
    }
}

impl Search {
    /// The score of the position by the search with null-move pruning. The
    /// board is left as it was.
    pub fn null_move_pruning(
        board: &mut Board,
        depth: i32,
        alpha: i32,
        beta: i32,
        color: Color,
        transposition_table: &mut TranspositionTable,
    ) -> (score: i32)
        requires
            old(board).wf(),
            old(transposition_table).wf(),
        ensures
            score == null_move_outcome(
                old(transposition_table).zobrist,
                old(board)@,
                depth as int,
                alpha,
                beta,
                color,
                old(transposition_table)@,
            ).score,
            final(transposition_table)@ == null_move_outcome(
                old(transposition_table).zobrist,
                old(board)@,
                depth as int,
                alpha,
                beta,
                color,
                old(transposition_table)@,
            ).table,
            final(transposition_table).zobrist == old(transposition_table).zobrist,
            final(board)@ == old(board)@,
            final(board).past() == old(board).past(),
            final(board).wf(),
    {
        if depth <= 1 || board.is_endgame() {
            return Search::alpha_beta(board, depth, alpha, beta, color, transposition_table).0;
        }
        board.do_null_move();
        let score = negated(
            Search::alpha_beta(
                board,
                depth - 1 - NULL_MOVE_REDUCTION,
                negated(beta),
                negated(alpha),
                color.opponent(),
                transposition_table,
            ).0,
        );
        board.undo_null_move();
        if score >= beta {
            return beta;
        }
        Search::alpha_beta(board, depth, alpha, beta, color, transposition_table).0
    }
}

} // verus!
