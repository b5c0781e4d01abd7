//! Mate in one: a search to depth one finds a move that checkmates,
//! whenever there is one.
//!
//! The score of a checkmate is beyond every evaluation, so the score of a
//! position at depth one is the score of a mate exactly when one of the
//! moves checkmates; and the best move of a search with the whole window is
//! a move whose score is the score of the search.

use crate::board::zobrist::Zobrist;
use crate::board::Position;
use crate::eval::bounds::EVALUATION_LIMIT;
use crate::piece::Color;
use crate::search::full_width::{
    full_best, full_value, lemma_negamax_answers, lemma_negated_answer,
    lemma_pruning_keeps_score, on_track, quiet_best, quiet_value,
};
use crate::search::negamax::{
    larger, moves_outcome, negamax_outcome, negation, MATE_SCORE, QUIESCENCE_LIMIT,
};
use crate::search::transposition::TranspositionEntry;
use crate::square::Square;
use vstd::prelude::*;

verus! {

/// The score of a move by the full-width search to depth `depth`: the
/// negated score of the position after it, one ply shallower.
pub open spec fn move_score(position: Position, depth: int, color: Color, mv: (Square, Square))
    -> i32 {
    match position.occupant(mv.0.index()) {
        Some((piece, _)) => negation(
            full_value(position.after_move(mv.0, mv.1, piece, color), depth - 1, color.other()),
        ),
        None => i32::MIN,
    }
}

/// Whether the move checkmates the opponent of `color`.
pub open spec fn mates(position: Position, mv: (Square, Square), color: Color) -> bool {
    match position.occupant(mv.0.index()) {
        Some((piece, _)) => position.after_move(mv.0, mv.1, piece, color).checkmated(
            color.other(),
        ),
        None => false,
    }
}

/// Whether a score is one that an evaluation can have.
pub open spec fn is_evaluation(score: i32) -> bool {
    -EVALUATION_LIMIT <= score <= EVALUATION_LIMIT
}

/// What holds of the best move while the moves of a node are searched: once
/// the best score has passed `alpha`, the best move is a move whose score
/// is at least the best score, and is the best score if that is below
/// `beta`.
pub open spec fn points_at(
    alpha: i32,
    beta: i32,
    best: i32,
    best_move: Option<(Square, Square)>,
    position: Position,
    depth: int,
    color: Color,
) -> bool {
    best > alpha ==> (best_move matches Some(mv) && move_score(position, depth, color, mv)
        >= best && (best < beta ==> move_score(position, depth, color, mv) == best))
}

/// The quiescence score without a window is one that an evaluation can
/// have.
pub proof fn lemma_quiet_value_bounds(position: Position, color: Color, plies: nat)
    ensures
        is_evaluation(quiet_value(position, color, plies)),
    decreases plies, 1nat, 0nat,
{
    position.lemma_score_bounds(color);
    if plies > 0 {
        lemma_quiet_best_bounds(
            position,
            color,
            position.captures(color),
            0,
            position.score(color) as i32,
            plies,
        );
    }
}

/// The best of an evaluation and the scores of the captures is one that an
/// evaluation can have.
pub proof fn lemma_quiet_best_bounds(
    position: Position,
    color: Color,
    moves: Seq<(Square, Square)>,
    next: nat,
    best: i32,
    plies: nat,
)
    requires
        is_evaluation(best),
    ensures
        is_evaluation(quiet_best(position, color, moves, next, best, plies)),
    decreases plies, 0nat, moves.len() - next,
{
    if next < moves.len() && plies > 0 {
        let from = moves[next as int].0;
        let to = moves[next as int].1;
        match position.occupant(from.index()) {
            None => {
                lemma_quiet_best_bounds(position, color, moves, next + 1, best, plies);
            },
            Some((piece, _)) => {
                let after = position.after_move(from, to, piece, color);
                lemma_quiet_value_bounds(after, color.other(), (plies - 1) as nat);
                let score = negation(quiet_value(after, color.other(), (plies - 1) as nat));
                lemma_quiet_best_bounds(
                    position,
                    color,
                    moves,
                    next + 1,
                    larger(best, score),
                    plies,
                );
            },
        }
    }
}

/// At depth zero the score of a position is the score of a lost game if
/// the mover is checkmated, and one that an evaluation can have if not.
pub proof fn lemma_leaf_value(position: Position, color: Color)
    ensures
        position.checkmated(color) ==> full_value(position, 0, color) == -MATE_SCORE,
        !position.checkmated(color) ==> is_evaluation(full_value(position, 0, color)),
{
    lemma_quiet_value_bounds(position, color, QUIESCENCE_LIMIT as nat);
}

/// At depth one the score of a move is the score of a mate exactly when
/// the move checkmates, and otherwise one that an evaluation can have, or
/// the lowest score of all for a move from an empty square.
pub proof fn lemma_move_score_at_one(position: Position, color: Color, mv: (Square, Square))
    ensures
        mates(position, mv, color) <==> move_score(position, 1, color, mv) == MATE_SCORE,
        move_score(position, 1, color, mv) == MATE_SCORE || move_score(position, 1, color, mv)
            == i32::MIN || is_evaluation(move_score(position, 1, color, mv)),
{
    match position.occupant(mv.0.index()) {
        Some((piece, _)) => {
            lemma_leaf_value(position.after_move(mv.0, mv.1, piece, color), color.other());
        },
        None => {},
    }
}

/// The best of the scores of the moves is the best so far or the score of
/// one of the moves, and no less than any of them.
pub proof fn lemma_full_best_is_best(
    position: Position,
    depth: int,
    color: Color,
    moves: Seq<(Square, Square)>,
    next: nat,
    best: i32,
)
    requires
        depth > 0,
    ensures
        full_best(position, depth, color, moves, next, best) >= best,
        forall|k: int|
            next <= k < moves.len() ==> full_best(position, depth, color, moves, next, best)
                >= #[trigger] move_score(position, depth, color, moves[k]),
        full_best(position, depth, color, moves, next, best) == best || exists|k: int|
            next <= k < moves.len() && full_best(position, depth, color, moves, next, best)
                == #[trigger] move_score(position, depth, color, moves[k]),
    decreases moves.len() - next,
{
    if next < moves.len() {
        let score = move_score(position, depth, color, moves[next as int]);
        let carried = match position.occupant(moves[next as int].0.index()) {
            None => best,
            Some(_) => larger(best, score),
        };
        lemma_full_best_is_best(position, depth, color, moves, next + 1, carried);
        let result = full_best(position, depth, color, moves, next, best);
        assert(result == full_best(position, depth, color, moves, next + 1, carried));
        assert forall|k: int| next <= k < moves.len() implies result >= #[trigger] move_score(
            position,
            depth,
            color,
            moves[k],
        ) by {
            if k == next {
            }
        }
        if result != best {
            if result == carried {
                assert(result == move_score(position, depth, color, moves[next as int]));
            } else {
                let k = choose|k: int|
                    next + 1 <= k < moves.len() && result == #[trigger] move_score(
                        position,
                        depth,
                        color,
                        moves[k],
                    );
                assert(next <= k < moves.len());
            }
        }
    }
}

/// The score of a position at depth one is the score of a mate exactly
/// when one of the legal moves checkmates.
pub proof fn lemma_mate_score(position: Position, color: Color)
    requires
        position.legal_moves(color).len() > 0,
    ensures
        full_value(position, 1, color) == MATE_SCORE <==> exists|k: int|
            0 <= k < position.legal_moves(color).len() && #[trigger] mates(
                position,
                position.legal_moves(color)[k],
                color,
            ),
        full_value(position, 1, color) <= MATE_SCORE,
{
    let moves = position.legal_moves(color);
    let value = full_value(position, 1, color);
    lemma_full_best_is_best(position, 1, color, moves, 0, i32::MIN);
    assert forall|k: int| 0 <= k < moves.len() implies (mates(position, #[trigger] moves[k], color)
        <==> move_score(position, 1, color, moves[k]) == MATE_SCORE) && move_score(
        position,
        1,
        color,
        moves[k],
    ) <= MATE_SCORE by {
        lemma_move_score_at_one(position, color, moves[k]);
    }
    if value != i32::MIN {
        let k = choose|k: int|
            0 <= k < moves.len() && value == #[trigger] move_score(position, 1, color, moves[k]);
        assert(0 <= k < moves.len());
        if value == MATE_SCORE {
            assert(mates(position, moves[k], color));
        }
    }
    if exists|k: int| 0 <= k < moves.len() && #[trigger] mates(position, moves[k], color) {
        let k = choose|k: int| 0 <= k < moves.len() && #[trigger] mates(position, moves[k], color);
        assert(move_score(position, 1, color, moves[k]) == MATE_SCORE);
        assert(value >= move_score(position, 1, color, moves[k]));
    }
}

/// The best move of the search of the moves is a move with the score of
/// the search, where that score lies inside the window.
pub proof fn lemma_best_move_score(
    keys: Zobrist,
    position: Position,
    depth: int,
    alpha: i32,
    lower: i32,
    beta: i32,
    color: Color,
    moves: Seq<(Square, Square)>,
    next: nat,
    best: i32,
    best_move: Option<(Square, Square)>,
    value: i32,
    table: Map<u64, TranspositionEntry>,
)
    requires
        alpha < beta,
        lower < beta,
        beta >= i32::MIN + 2,
        depth > 0,
        on_track(alpha, lower, best, value),
        points_at(alpha, beta, best, best_move, position, depth, color),
    ensures
        points_at(
            alpha,
            beta,
            moves_outcome(
                keys,
                position,
                depth,
                lower,
                beta,
                color,
                moves,
                next,
                best,
                best_move,
                table,
            ).score,
            moves_outcome(
                keys,
                position,
                depth,
                lower,
                beta,
                color,
                moves,
                next,
                best,
                best_move,
                table,
            ).best,
            position,
            depth,
            color,
        ),
    decreases moves.len() - next,
{
    if next < moves.len() {
        let from = moves[next as int].0;
        let to = moves[next as int].1;
        match position.occupant(from.index()) {
            None => {
                lemma_best_move_score(
                    keys,
                    position,
                    depth,
                    alpha,
                    lower,
                    beta,
                    color,
                    moves,
                    next + 1,
                    best,
                    best_move,
                    value,
                    table,
                );
            },
            Some((piece, _)) => {
                let after = position.after_move(from, to, piece, color);
                let child = negamax_outcome(
                    keys,
                    after,
                    depth - 1,
                    negation(beta),
                    negation(lower),
                    color.other(),
                    table,
                );
                let child_value = full_value(after, depth - 1, color.other());
                lemma_negamax_answers(
                    keys,
                    after,
                    depth - 1,
                    negation(beta),
                    negation(lower),
                    color.other(),
                    table,
                );
                lemma_negated_answer(child.score, child_value, lower, beta);
                let score = negation(child.score);
                let true_score = negation(child_value);
                assert(move_score(position, depth, color, moves[next as int]) == true_score);
                let new_value = larger(value, true_score);
                let better = score > best;
                let new_best = if better {
                    score
                } else {
                    best
                };
                let new_move = if better {
                    Some(moves[next as int])
                } else {
                    best_move
                };
                if larger(lower, score) < beta {
                    lemma_best_move_score(
                        keys,
                        position,
                        depth,
                        alpha,
                        larger(lower, score),
                        beta,
                        color,
                        moves,
                        next + 1,
                        new_best,
                        new_move,
                        new_value,
                        child.table,
                    );
                }
            },
        }
    }
}

/// A search to depth one with the whole window returns the score of a mate
/// exactly when one of the legal moves checkmates, and its best move is
/// then a move that checkmates.
pub proof fn lemma_mate_in_one(
    keys: Zobrist,
    position: Position,
    color: Color,
    table: Map<u64, TranspositionEntry>,
)
    ensures
        negamax_outcome(keys, position, 1, i32::MIN, i32::MAX, color, table).score == MATE_SCORE
            <==> exists|k: int|
            0 <= k < position.legal_moves(color).len() && #[trigger] mates(
                position,
                position.legal_moves(color)[k],
                color,
            ),
        negamax_outcome(keys, position, 1, i32::MIN, i32::MAX, color, table).score == MATE_SCORE
            ==> (negamax_outcome(
            keys,
            position,
            1,
            i32::MIN,
            i32::MAX,
            color,
            table,
        ).best matches Some(found) && mates(position, found, color)),
{
    let moves = position.legal_moves(color);
    let outcome = negamax_outcome(keys, position, 1, i32::MIN, i32::MAX, color, table);
    lemma_pruning_keeps_score(keys, position, 1, color, table);
    if moves.len() > 0 {
        lemma_mate_score(position, color);
        lemma_best_move_score(
            keys,
            position,
            1,
            i32::MIN,
            i32::MIN,
            i32::MAX,
            color,
            moves,
            0,
            i32::MIN,
            None,
            i32::MIN,
            table,
        );
        if outcome.score == MATE_SCORE {
            let found = outcome.best->0;
            lemma_move_score_at_one(position, color, found);
        }
    }
}

/// Whether some legal move of `color` checkmates.
pub open spec fn has_mate_in_one(position: Position, color: Color) -> bool {
    exists|k: int|
        0 <= k < position.legal_moves(color).len() && #[trigger] mates(
            position,
            position.legal_moves(color)[k],
            color,
        )
}

/// Where some legal move checkmates, the best move of a search to depth
/// one with the whole window is a move that checkmates.
pub proof fn lemma_mate_is_found(
    keys: Zobrist,
    position: Position,
    color: Color,
    table: Map<u64, TranspositionEntry>,
)
    requires
        has_mate_in_one(position, color),
    ensures
        negamax_outcome(keys, position, 1, i32::MIN, i32::MAX, color, table).best matches Some(
            found,
        ) && mates(position, found, color),
{
    lemma_mate_in_one(keys, position, color, table);
}

} // verus!
