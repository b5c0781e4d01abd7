//! The search without pruning, and the proof that pruning does not change
//! the score.
//!
//! [`full_value`] is the score of a position by full-width negamax: every
//! legal move is searched, and the best of the negated scores is the score.
//! [`lemma_pruning_keeps_score`] says that the negamax search with
//! alpha-beta pruning returns that score when it starts with the whole
//! window. It rests on what a search with a narrower window answers: the
//! score itself if it lies inside the window, and a bound on the right side
//! of it if not.

use crate::board::zobrist::Zobrist;
use crate::board::{Board, Position};
use crate::eval::evaluation::Evaluation;
use crate::piece::Color;
use crate::search::negamax::{
    captures_value, depth_left, larger, moves_outcome, negamax_outcome, negated, negation,
    quiescence_value, Search, MATE_SCORE, QUIESCENCE_LIMIT,
};
use crate::search::transposition::TranspositionEntry;
use crate::square::Square;
use vstd::prelude::*;

verus! {

/// The score of the quiescence search without a window: the best of the
/// static evaluation and the negated scores of the captures, following at
/// most `plies` captures in a row.
pub open spec fn quiet_value(position: Position, color: Color, plies: nat) -> i32
    decreases plies, 1nat, 0nat,
{
    let stand_pat = position.score(color) as i32;
    if plies == 0 {
        stand_pat
    } else {
        quiet_best(position, color, position.captures(color), 0, stand_pat, plies)
    }
}

/// The best of `best` and the negated scores of the captures from the
/// `next` on.
pub open spec fn quiet_best(
    position: Position,
    color: Color,
    moves: Seq<(Square, Square)>,
    next: nat,
    best: i32,
    plies: nat,
) -> i32
    decreases plies, 0nat, moves.len() - next,
{
    if next >= moves.len() || plies == 0 {
        best
    } else {
        let from = moves[next as int].0;
        let to = moves[next as int].1;
        match position.occupant(from.index()) {
            None => quiet_best(position, color, moves, next + 1, best, plies),
            Some((piece, _)) => quiet_best(
                position,
                color,
                moves,
                next + 1,
                larger(
                    best,
                    negation(
                        quiet_value(
                            position.after_move(from, to, piece, color),
                            color.other(),
                            (plies - 1) as nat,
                        ),
                    ),
                ),
                plies,
            ),
        }
    }
}

/// The score of a position for `color` by full-width negamax to depth
/// `depth`: lost or drawn without a legal move, the quiescence score at
/// depth zero, and otherwise the best of the negated scores of the
/// positions after the legal moves.
pub open spec fn full_value(position: Position, depth: int, color: Color) -> i32
    decreases depth_left(depth), 1nat, 0nat,
{
    let moves = position.legal_moves(color);
    if moves.len() == 0 {
        if position.in_check(color) {
            (-MATE_SCORE) as i32
        } else {
            0
        }
    } else if depth <= 0 {
        quiet_value(position, color, QUIESCENCE_LIMIT as nat)
    } else {
        full_best(position, depth, color, moves, 0, i32::MIN)
    }
}

/// The best of `best` and the negated scores of the positions after the
/// moves from the `next` on.
pub open spec fn full_best(
    position: Position,
    depth: int,
    color: Color,
    moves: Seq<(Square, Square)>,
    next: nat,
    best: i32,
) -> i32
    decreases depth_left(depth), 0nat, moves.len() - next,
{
    if next >= moves.len() || depth <= 0 {
        best
    } else {
        let from = moves[next as int].0;
        let to = moves[next as int].1;
        match position.occupant(from.index()) {
            None => full_best(position, depth, color, moves, next + 1, best),
            Some((piece, _)) => full_best(
                position,
                depth,
                color,
                moves,
                next + 1,
                larger(
                    best,
                    negation(
                        full_value(
                            position.after_move(from, to, piece, color),
                            depth - 1,
                            color.other(),
                        ),
                    ),
                ),
            ),
        }
    }
}

/// What the score of a search in a window says of the true value: at or
/// below the window it is an upper bound, at or above it a lower bound, and
/// inside it the value itself.
pub open spec fn answers(score: i32, value: i32, alpha: i32, beta: i32) -> bool {
    &&& score <= alpha ==> value <= score
    &&& score >= beta ==> value >= score
    &&& alpha < score < beta ==> value == score
}

/// What holds while the moves of a node are searched, of the best score so
/// far, the best true value so far and the lower bound: once the best score
/// has passed `alpha` it is the best value, and the lower bound with it;
/// until then it bounds the best value from above.
pub open spec fn on_track(alpha: i32, lower: i32, best: i32, value: i32) -> bool {
    &&& best > alpha ==> value == best && lower == best
    &&& best <= alpha ==> value <= best && lower == alpha
}

/// The best of the values is no less than the best so far.
pub proof fn lemma_full_best_grows(
    position: Position,
    depth: int,
    color: Color,
    moves: Seq<(Square, Square)>,
    next: nat,
    best: i32,
)
    ensures
        full_best(position, depth, color, moves, next, best) >= best,
    decreases moves.len() - next,
{
    if next < moves.len() && depth > 0 {
        let from = moves[next as int].0;
        let to = moves[next as int].1;
        match position.occupant(from.index()) {
            None => {
                lemma_full_best_grows(position, depth, color, moves, next + 1, best);
            },
            Some((piece, _)) => {
                let value = negation(
                    full_value(
                        position.after_move(from, to, piece, color),
                        depth - 1,
                        color.other(),
                    ),
                );
                lemma_full_best_grows(
                    position,
                    depth,
                    color,
                    moves,
                    next + 1,
                    larger(best, value),
                );
            },
        }
    }
}

/// The best of the values of the captures is no less than the best so far.
pub proof fn lemma_quiet_best_grows(
    position: Position,
    color: Color,
    moves: Seq<(Square, Square)>,
    next: nat,
    best: i32,
    plies: nat,
)
    ensures
        quiet_best(position, color, moves, next, best, plies) >= best,
    decreases moves.len() - next,
{
    if next < moves.len() && plies > 0 {
        let from = moves[next as int].0;
        let to = moves[next as int].1;
        match position.occupant(from.index()) {
            None => {
                lemma_quiet_best_grows(position, color, moves, next + 1, best, plies);
            },
            Some((piece, _)) => {
                let value = negation(
                    quiet_value(
                        position.after_move(from, to, piece, color),
                        color.other(),
                        (plies - 1) as nat,
                    ),
                );
                lemma_quiet_best_grows(
                    position,
                    color,
                    moves,
                    next + 1,
                    larger(best, value),
                    plies,
                );
            },
        }
    }
}

/// The negated answer of a search for the opponent, in the negated and
/// swapped window, is an answer in the window itself.
pub proof fn lemma_negated_answer(score: i32, value: i32, lower: i32, beta: i32)
    requires
        lower < beta,
        beta >= i32::MIN + 2,
        answers(score, value, negation(beta), negation(lower)),
    ensures
        negation(score) >= beta ==> negation(value) >= negation(score),
        negation(score) <= lower ==> negation(value) <= negation(score),
        lower < negation(score) < beta ==> negation(value) == negation(score),
{
}

/// The quiescence search in a window answers for the quiescence score
/// without a window.
pub proof fn lemma_quiescence_answers(
    position: Position,
    alpha: i32,
    beta: i32,
    color: Color,
    plies: nat,
)
    requires
        alpha < beta,
        beta >= i32::MIN + 2,
    ensures
        answers(
            quiescence_value(position, alpha, beta, color, plies),
            quiet_value(position, color, plies),
            alpha,
            beta,
        ),
    decreases plies, 1nat, 0nat,
{
    let stand_pat = position.score(color) as i32;
    if plies > 0 {
        lemma_quiet_best_grows(position, color, position.captures(color), 0, stand_pat, plies);
        if stand_pat < beta {
            lemma_captures_answer(
                position,
                alpha,
                larger(alpha, stand_pat),
                beta,
                color,
                position.captures(color),
                0,
                stand_pat,
                stand_pat,
                plies,
            );
        }
    }
}

/// The search of the captures from the `next` on answers for the best of
/// their values.
pub proof fn lemma_captures_answer(
    position: Position,
    alpha: i32,
    lower: i32,
    beta: i32,
    color: Color,
    moves: Seq<(Square, Square)>,
    next: nat,
    best: i32,
    value: i32,
    plies: nat,
)
    requires
        alpha < beta,
        lower < beta,
        beta >= i32::MIN + 2,
        plies > 0,
        on_track(alpha, lower, best, value),
    ensures
        answers(
            captures_value(position, lower, beta, color, moves, next, best, plies),
            quiet_best(position, color, moves, next, value, plies),
            alpha,
            beta,
        ),
    decreases plies, 0nat, moves.len() - next,
{
    if next < moves.len() {
        let from = moves[next as int].0;
        let to = moves[next as int].1;
        match position.occupant(from.index()) {
            None => {
                lemma_captures_answer(
                    position,
                    alpha,
                    lower,
                    beta,
                    color,
                    moves,
                    next + 1,
                    best,
                    value,
                    plies,
                );
            },
            Some((piece, _)) => {
                let after = position.after_move(from, to, piece, color);
                let child_score = quiescence_value(
                    after,
                    negation(beta),
                    negation(lower),
                    color.other(),
                    (plies - 1) as nat,
                );
                let child_value = quiet_value(after, color.other(), (plies - 1) as nat);
                lemma_quiescence_answers(
                    after,
                    negation(beta),
                    negation(lower),
                    color.other(),
                    (plies - 1) as nat,
                );
                lemma_negated_answer(child_score, child_value, lower, beta);
                let score = negation(child_score);
                let true_score = negation(child_value);
                let new_value = larger(value, true_score);
                if larger(lower, score) >= beta {
                    lemma_quiet_best_grows(position, color, moves, next + 1, new_value, plies);
                } else {
                    lemma_captures_answer(
                        position,
                        alpha,
                        larger(lower, score),
                        beta,
                        color,
                        moves,
                        next + 1,
                        larger(best, score),
                        new_value,
                        plies,
                    );
                }
            },
        }
    }
}

/// The negamax search in a window answers for the full-width score.
pub proof fn lemma_negamax_answers(
    keys: Zobrist,
    position: Position,
    depth: int,
    alpha: i32,
    beta: i32,
    color: Color,
    table: Map<u64, TranspositionEntry>,
)
    requires
        alpha < beta,
        beta >= i32::MIN + 2,
    ensures
        answers(
            negamax_outcome(keys, position, depth, alpha, beta, color, table).score,
            full_value(position, depth, color),
            alpha,
            beta,
        ),
    decreases depth_left(depth), 1nat, 0nat,
{
    let moves = position.legal_moves(color);
    if moves.len() == 0 {
    } else if depth <= 0 {
        lemma_quiescence_answers(position, alpha, beta, color, QUIESCENCE_LIMIT as nat);
    } else {
        lemma_moves_answer(
            keys,
            position,
            depth,
            alpha,
            alpha,
            beta,
            color,
            moves,
            0,
            i32::MIN,
            None,
            i32::MIN,
            table,
        );
    }
}

/// The search of the moves from the `next` on answers for the best of
/// their values.
pub proof fn lemma_moves_answer(
    keys: Zobrist,
    position: Position,
    depth: int,
    alpha: i32,
    lower: i32,
    beta: i32,
    color: Color,
    moves: Seq<(Square, Square)>,
    next: nat,
    best: i32,
    best_move: Option<(Square, Square)>,
    value: i32,
    table: Map<u64, TranspositionEntry>,
)
    requires
        alpha < beta,
        lower < beta,
        beta >= i32::MIN + 2,
        depth > 0,
        on_track(alpha, lower, best, value),
    ensures
        answers(
            moves_outcome(
                keys,
                position,
                depth,
                lower,
                beta,
                color,
                moves,
                next,
                best,
                best_move,
                table,
            ).score,
            full_best(position, depth, color, moves, next, value),
            alpha,
            beta,
        ),
    decreases depth_left(depth), 0nat, moves.len() - next,
{
    if next < moves.len() {
        let from = moves[next as int].0;
        let to = moves[next as int].1;
        match position.occupant(from.index()) {
            None => {
                lemma_moves_answer(
                    keys,
                    position,
                    depth,
                    alpha,
                    lower,
                    beta,
                    color,
                    moves,
                    next + 1,
                    best,
                    best_move,
                    value,
                    table,
                );
            },
            Some((piece, _)) => {
                let after = position.after_move(from, to, piece, color);
                let child = negamax_outcome(
                    keys,
                    after,
                    depth - 1,
                    negation(beta),
                    negation(lower),
                    color.other(),
                    table,
                );
                let child_value = full_value(after, depth - 1, color.other());
                lemma_negamax_answers(
                    keys,
                    after,
                    depth - 1,
                    negation(beta),
                    negation(lower),
                    color.other(),
                    table,
                );
                lemma_negated_answer(child.score, child_value, lower, beta);
                let score = negation(child.score);
                let true_score = negation(child_value);
                let new_value = larger(value, true_score);
                let better = score > best;
                let new_best = if better {
                    score
                } else {
                    best
                };
                let new_move = if better {
                    Some(moves[next as int])
                } else {
                    best_move
                };
                if larger(lower, score) >= beta {
                    lemma_full_best_grows(position, depth, color, moves, next + 1, new_value);
                } else {
                    lemma_moves_answer(
                        keys,
                        position,
                        depth,
                        alpha,
                        larger(lower, score),
                        beta,
                        color,
                        moves,
                        next + 1,
                        new_best,
                        new_move,
                        new_value,
                        child.table,
                    );
                }
            },
        }
    }
}

/// Pruning does not change the score: the negamax search with alpha-beta
/// pruning, started with the whole window, returns the score of the
/// full-width search to the same depth.
pub proof fn lemma_pruning_keeps_score(
    keys: Zobrist,
    position: Position,
    depth: int,
    color: Color,
    table: Map<u64, TranspositionEntry>,
)
    ensures
        negamax_outcome(keys, position, depth, i32::MIN, i32::MAX, color, table).score
            == full_value(position, depth, color),
{
    lemma_negamax_answers(keys, position, depth, i32::MIN, i32::MAX, color, table);
}

impl Search {
    /// The quiescence score without a window, following at most `plies`
    /// captures in a row. The board is left as it was.
    pub fn quiescence_full_width(board: &mut Board, color: Color, plies: u32) -> (score: i32)
        requires
            old(board).wf(),
        ensures
            score == quiet_value(old(board)@, color, plies as nat),
            final(board)@ == old(board)@,
            final(board).past() == old(board).past(),
            final(board).wf(),
        decreases plies,
    {
        let stand_pat = Evaluation::evaluate(board, color);
        if plies == 0 {
            return stand_pat;
        }
        let moves = board.generate_captures(color);
        let ghost position = board@;
        let ghost past = board.past();
        let ghost whole = quiet_value(position, color, plies as nat);
        let mut best = stand_pat;
        let mut i: usize = 0;
        while i < moves.len()
            invariant
                i <= moves@.len(),
                plies > 0,
                board@ == position,
                board.past() == past,
                board.wf(),
                whole == quiet_best(position, color, moves@, i as nat, best, plies as nat),
            decreases moves@.len() - i,
        {
            let from = moves[i].0;
            let to = moves[i].1;
            match board.get_piece_at_square(from) {
                Some((piece, _)) => {
                    board.make_move(from, to, piece, color);
                    let score = negated(
                        Search::quiescence_full_width(board, color.opponent(), plies - 1),
                    );
                    board.unmake_move(from, to, piece, color);
                    proof {
                        assert(past.push(position).drop_last() =~= past);
                    }
                    if score > best {
                        best = score;
                    }
                },
                None => {},
            }
            i += 1;
        }
        best
    }

    /// The score of the position for `color` by full-width negamax to depth
    /// `depth`, without pruning: the score that [`Search::negamax`] returns
    /// when it starts with the whole window. The board is left as it was.
    pub fn full_width(board: &mut Board, depth: i32, color: Color) -> (score: i32)
        requires
            old(board).wf(),
        ensures
            score == full_value(old(board)@, depth as int, color),
            final(board)@ == old(board)@,
            final(board).past() == old(board).past(),
            final(board).wf(),
        decreases depth_left(depth as int),
    {
        let moves = board.generate_legal_moves(color);
        if moves.len() == 0 {
            if board.in_check(color) {
                return -MATE_SCORE;
            } else {
                return 0;
            }
        }
        if depth <= 0 {
            return Search::quiescence_full_width(board, color, QUIESCENCE_LIMIT);
        }
        let ghost position = board@;
        let ghost past = board.past();
        let ghost whole = full_value(position, depth as int, color);
        let mut best: i32 = i32::MIN;
        let mut i: usize = 0;
        while i < moves.len()
            invariant
                i <= moves@.len(),
                depth > 0,
                board@ == position,
                board.past() == past,
                board.wf(),
                whole == full_best(position, depth as int, color, moves@, i as nat, best),
            decreases moves@.len() - i,
        {
            let from = moves[i].0;
            let to = moves[i].1;
            match board.get_piece_at_square(from) {
                Some((piece, _)) => {
                    board.make_move(from, to, piece, color);
                    let score = negated(Search::full_width(board, depth - 1, color.opponent()));
                    board.unmake_move(from, to, piece, color);
                    proof {
                        assert(past.push(position).drop_last() =~= past);
                    }
                    if score > best {
                        best = score;
                    }
                },
                None => {},
            }
            i += 1;
        }
        best
    }
}

} // verus!
