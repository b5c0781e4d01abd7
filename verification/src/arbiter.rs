//! The engine as its callers see it: it looks at the position, picks the
//! search and the evaluation that fit it, and runs them.

pub mod position_type;
pub mod strategy;

use crate::arbiter::position_type::determine_position_type;
use crate::arbiter::strategy::{
    choose_evaluation_strategy, choose_search_strategy, run_evaluation, run_search, search_for,
    strategy_outcome,
};
use crate::board::Board;
use crate::error::ChessError;
use crate::piece::Color;
use crate::search::mate::{has_mate_in_one, mates};
use crate::search::negamax::move_or_error;
use crate::search::transposition::{TranspositionEntry, TranspositionTable};
use crate::square::Square;
use vstd::prelude::*;

verus! {

/// The engine: a transposition cache and the choice of how to search.
pub struct Arbiter {
    pub transposition_table: TranspositionTable,
}

impl Arbiter {
    /// The invariant of the engine: that of its cache.
    pub open spec fn wf(&self) -> bool {
        self.transposition_table.wf()
    }

    /// Whether the engine meets its invariant.
    pub fn is_valid(&self) -> (valid: bool)
        ensures
            valid == self.wf(),
    {
        self.transposition_table.is_valid()
    }

    /// An engine with an empty cache.
    pub fn new() -> (engine: Arbiter)
        ensures
            engine.transposition_table@ == Map::<u64, TranspositionEntry>::empty(),
            engine.transposition_table.zobrist.standard(),
            engine.wf(),
    {
        Arbiter { transposition_table: TranspositionTable::new() }
    }

    /// The best move for `color` to depth `max_depth`, by the search that
    /// fits the kind of the position; `NoLegalMove` if the search finds no
    /// move. The board is left as it was.
    pub fn search_best_move(&mut self, board: &mut Board, max_depth: i32, color: Color) -> (best:
        Result<(Square, Square), ChessError>)
        requires
            old(board).wf(),
            old(self).wf(),
        ensures
            best == move_or_error(
                strategy_outcome(
                    search_for(old(board)@.kind(color)),
                    old(self).transposition_table.zobrist,
                    old(board)@,
                    max_depth,
                    color,
                    old(self).transposition_table@,
                ).best,
            ),
            final(self).transposition_table@ == strategy_outcome(
                search_for(old(board)@.kind(color)),
                old(self).transposition_table.zobrist,
                old(board)@,
                max_depth,
                color,
                old(self).transposition_table@,
            ).table,
            best is Ok <==> old(board)@.legal_moves(color).len() > 0,
            best matches Ok(found) ==> old(board)@.legal(found, color),
            max_depth <= 1 && has_mate_in_one(old(board)@, color) ==> (best matches Ok(found)
                && mates(old(board)@, found, color)),
            final(self).transposition_table.zobrist == old(self).transposition_table.zobrist,
            final(self).wf(),
            final(board)@ == old(board)@,
            final(board).past() == old(board).past(),
            final(board).wf(),
    {
        let position_type = determine_position_type(board, color);
        let search_strategy = choose_search_strategy(position_type);
        run_search(search_strategy, board, max_depth, color, &mut self.transposition_table)
    }

    /// The evaluation of the position from the side of `color`.
    pub fn evaluate_position(&self, board: &Board, color: Color) -> (score: i32)
        requires
            board.wf(),
        ensures
            score == board@.score(color),
    {
        let position_type = determine_position_type(board, color);
        let evaluation_strategy = choose_evaluation_strategy(position_type);
        run_evaluation(evaluation_strategy, board, color)
    }
}

impl Default for Arbiter {
    fn default() -> (engine: Arbiter)
        ensures
            engine.transposition_table@ == Map::<u64, TranspositionEntry>::empty(),
            engine.transposition_table.zobrist.standard(),
            engine.wf(),
    {
        Arbiter::new()
    }
}

} // verus!
