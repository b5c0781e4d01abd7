//! Late move reductions: the moves generated late are searched a ply
//! shallower, on the expectation that they are worse.

use crate::board::zobrist::Zobrist;
use crate::board::{Board, Position};
use crate::piece::Color;
use crate::search::negamax::{larger, negamax_outcome, negated, negation, Outcome, Search};
use crate::search::transposition::{TranspositionEntry, TranspositionTable};
use crate::square::Square;
use vstd::prelude::*;

verus! {

/// How many moves are searched at full depth before the reductions begin.
pub const FULL_DEPTH_MOVES: usize = 4;

/// By how much the search of move number `index` is shallower.
pub open spec fn reduction_at(index: nat) -> int {
    if index >= FULL_DEPTH_MOVES {
        1
    } else {
        0
    }
}

/// What the search with late move reductions returns.
///
/// At a depth of one or less, and where there is no legal move, it is the
/// plain search. Otherwise every legal move is searched in the order of
/// generation, the first four to the full depth and the others a ply
/// shallower. A reduced search is taken as it is, without a second search
/// at full depth.
#[verifier::opaque]
pub open spec fn lmr_outcome(
    keys: Zobrist,
    position: Position,
    depth: int,
    alpha: i32,
    beta: i32,
    color: Color,
    table: Map<u64, TranspositionEntry>,
) -> Outcome {
    let moves = position.legal_moves(color);
    if depth <= 1 || moves.len() == 0 {
        negamax_outcome(keys, position, depth, alpha, beta, color, table)
    } else {
        lmr_moves_outcome(keys, position, depth, alpha, beta, color, moves, 0, i32::MIN, table)
    }
}

/// What the search of the moves from the `next` on returns, with `best` the
/// best score so far.
pub open spec fn lmr_moves_outcome(
    keys: Zobrist,
    position: Position,
    depth: int,
    alpha: i32,
    beta: i32,
    color: Color,
    moves: Seq<(Square, Square)>,
    next: nat,
    best: i32,
    table: Map<u64, TranspositionEntry>,
) -> Outcome
    decreases moves.len() - next,
{
    if next >= moves.len() {
        Outcome { score: best, best: None, table }
    } else {
        let from = moves[next as int].0;
        let to = moves[next as int].1;
        match position.occupant(from.index()) {
            None => lmr_moves_outcome(
                keys,
                position,
                depth,
                alpha,
                beta,
                color,
                moves,
                next + 1,
                best,
                table,
            ),
            Some((piece, _)) => {
                let child = negamax_outcome(
                    keys,
                    position.after_move(from, to, piece, color),
                    depth - 1 - reduction_at(next),
                    negation(beta),
                    negation(alpha),
                    color.other(),
                    table,
                );
                let score = negation(child.score);
                if larger(alpha, score) >= beta {
                    Outcome { score: larger(best, score), best: None, table: child.table }
                } else {
                    lmr_moves_outcome(
                        keys,
                        position,
                        depth,
                        larger(alpha, score),
                        beta,
                        color,
                        moves,
                        next + 1,
                        larger(best, score),
                        child.table,
                    )
                }
            },
        }
    }
}

/// The score of the position by the search with late move reductions. The
/// board is left as it was.
pub fn late_move_reductions(
    board: &mut Board,
    depth: i32,
    alpha: i32,
    beta: i32,
    color: Color,
    transposition_table: &mut TranspositionTable,
) -> (score: i32)
    requires
        old(board).wf(),
        old(transposition_table).wf(),
    ensures
        score == lmr_outcome(
            old(transposition_table).zobrist,
            old(board)@,
            depth as int,
            alpha,
            beta,
            color,
            old(transposition_table)@,
        ).score,
        final(transposition_table)@ == lmr_outcome(
            old(transposition_table).zobrist,
            old(board)@,
            depth as int,
            alpha,
            beta,
            color,
            old(transposition_table)@,
        ).table,
        final(transposition_table).zobrist == old(transposition_table).zobrist,
        final(board)@ == old(board)@,
        final(board).past() == old(board).past(),
        final(board).wf(),
{
    reveal(lmr_outcome);
    if depth <= 1 {
        return Search::alpha_beta(board, depth, alpha, beta, color, transposition_table).0;
    }
    let moves = board.generate_legal_moves(color);
    if moves.len() == 0 {
        return Search::alpha_beta(board, depth, alpha, beta, color, transposition_table).0;
    }
    let ghost keys = transposition_table.zobrist;
    let ghost position = board@;
    let ghost past = board.past();
    let ghost whole = lmr_outcome(
        keys,
        position,
        depth as int,
        alpha,
        beta,
        color,
        transposition_table@,
    );
    let mut best_eval: i32 = i32::MIN;
    let mut lower = alpha;
    let mut cut = false;
    let mut index: usize = 0;
    while index < moves.len() && !cut
        invariant
            index <= moves@.len(),
            depth > 1,
            board@ == position,
            board.past() == past,
            board.wf(),
            transposition_table.wf(),
            transposition_table.zobrist == keys,
            whole == (if cut {
                Outcome { score: best_eval, best: None, table: transposition_table@ }
            } else {
                lmr_moves_outcome(
                    keys,
                    position,
                    depth as int,
                    lower,
                    beta,
                    color,
                    moves@,
                    index as nat,
                    best_eval,
                    transposition_table@,
                )
            }),
        decreases moves@.len() - index + (if cut { 0int } else { 1int }),
    {
        let reduction: i32 = if index >= FULL_DEPTH_MOVES {
            1
        } else {
            0
        };
        let from = moves[index].0;
        let to = moves[index].1;
        match board.get_piece_at_square(from) {
            Some((piece, _)) => {
                board.make_move(from, to, piece, color);
                let eval = negated(
                    Search::alpha_beta(
                        board,
                        depth - 1 - reduction,
                        negated(beta),
                        negated(lower),
                        color.opponent(),
                        transposition_table,
                    ).0,
                );
                board.unmake_move(from, to, piece, color);
                proof {
                    assert(past.push(position).drop_last() =~= past);
                }
                if eval > best_eval {
                    best_eval = eval;
                }
                if eval > lower {
                    lower = eval;
                }
                if lower >= beta {
                    cut = true;
                }
            },
            None => {},
        }
        index += 1;
    }
    best_eval
}

} // verus!
