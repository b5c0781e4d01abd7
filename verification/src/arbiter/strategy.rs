//! The searches and evaluations that the engine picks from, and the table
//! by which it picks.

use crate::arbiter::position_type::PositionType;
use crate::board::zobrist::Zobrist;
use crate::board::{Board, Position};
use crate::error::ChessError;
use crate::eval::evaluation::Evaluation;
use crate::piece::Color;
use crate::search::iterative::iterative_outcome;
use crate::search::lmr::{late_move_reductions, lmr_outcome};
use crate::search::mate::{has_mate_in_one, lemma_mate_is_found, mates};
use crate::search::negamax::{
    at_least_one, larger, move_or_error, moves_outcome, negamax_outcome, negated, negation,
    Outcome, Search,
};
use crate::search::transposition::{TranspositionEntry, TranspositionTable};
use crate::square::Square;
use vstd::prelude::*;

verus! {

/// A way to search for the best move.
#[derive(Copy, Clone, Debug, PartialEq, Eq, Structural)]
pub enum SearchStrategy {
    /// Search to depth one, two and so on, and take the move of the last
    /// run.
    IterativeDeepening,
    /// Search every move of the position with late move reductions.
    LateMoveReductions,
    /// One negamax search to the full depth.
    Negamax,
}

/// A way to evaluate a position.
#[derive(Copy, Clone, Debug, PartialEq, Eq, Structural)]
pub enum EvaluationStrategy {
    General,
    Endgame,
    Complex,
}

/// The search for a kind of position.
pub open spec fn search_for(position_type: PositionType) -> SearchStrategy {
    match position_type {
        PositionType::Open => SearchStrategy::IterativeDeepening,
        PositionType::SemiOpen => SearchStrategy::IterativeDeepening,
        PositionType::Closed => SearchStrategy::LateMoveReductions,
        PositionType::SemiClosed => SearchStrategy::LateMoveReductions,
        PositionType::Endgame => SearchStrategy::Negamax,
        PositionType::Complex => SearchStrategy::IterativeDeepening,
        PositionType::Trivial => SearchStrategy::Negamax,
    }
}

/// The evaluation for a kind of position.
pub open spec fn evaluation_for(position_type: PositionType) -> EvaluationStrategy {
    match position_type {
        PositionType::Endgame => EvaluationStrategy::Endgame,
        PositionType::Complex => EvaluationStrategy::Complex,
        _ => EvaluationStrategy::General,
    }
}

/// What the search of the moves of a position with late move reductions
/// returns, from the move `next` on: each move is made and the position
/// after it scored by [`lmr_outcome`] to a depth one less.
pub open spec fn lmr_root_outcome(
    keys: Zobrist,
    position: Position,
    depth: int,
    alpha: i32,
    color: Color,
    moves: Seq<(Square, Square)>,
    next: nat,
    best: i32,
    best_move: Option<(Square, Square)>,
    table: Map<u64, TranspositionEntry>,
) -> Outcome
    decreases moves.len() - next,
{
    if next >= moves.len() {
        Outcome { score: best, best: best_move, table }
    } else {
        let from = moves[next as int].0;
        let to = moves[next as int].1;
        match position.occupant(from.index()) {
            None => lmr_root_outcome(
                keys,
                position,
                depth,
                alpha,
                color,
                moves,
                next + 1,
                best,
                best_move,
                table,
            ),
            Some((piece, _)) => {
                let child = lmr_outcome(
                    keys,
                    position.after_move(from, to, piece, color),
                    depth - 1,
                    negation(i32::MAX),
                    negation(alpha),
                    color.other(),
                    table,
                );
                let score = negation(child.score);
                let better = score > best;
                let new_best = if better {
                    score
                } else {
                    best
                };
                let new_move = if better {
                    Some(moves[next as int])
                } else {
                    best_move
                };
                if larger(alpha, score) >= i32::MAX {
                    Outcome { score: new_best, best: new_move, table: child.table }
                } else {
                    lmr_root_outcome(
                        keys,
                        position,
                        depth,
                        larger(alpha, score),
                        color,
                        moves,
                        next + 1,
                        new_best,
                        new_move,
                        child.table,
                    )
                }
            },
        }
    }
}

/// A search of the moves with late move reductions that has a best move
/// keeps one.
pub proof fn lemma_lmr_root_keeps_move(
    keys: Zobrist,
    position: Position,
    depth: int,
    alpha: i32,
    color: Color,
    moves: Seq<(Square, Square)>,
    next: nat,
    best: i32,
    best_move: Option<(Square, Square)>,
    table: Map<u64, TranspositionEntry>,
)
    requires
        best_move is Some,
    ensures
        lmr_root_outcome(
            keys,
            position,
            depth,
            alpha,
            color,
            moves,
            next,
            best,
            best_move,
            table,
        ).best is Some,
    decreases moves.len() - next,
{
    if next < moves.len() {
        let from = moves[next as int].0;
        let to = moves[next as int].1;
        match position.occupant(from.index()) {
            None => {
                lemma_lmr_root_keeps_move(
                    keys,
                    position,
                    depth,
                    alpha,
                    color,
                    moves,
                    next + 1,
                    best,
                    best_move,
                    table,
                );
            },
            Some((piece, _)) => {
                let child = lmr_outcome(
                    keys,
                    position.after_move(from, to, piece, color),
                    depth - 1,
                    negation(i32::MAX),
                    negation(alpha),
                    color.other(),
                    table,
                );
                let score = negation(child.score);
                let better = score > best;
                let new_best = if better {
                    score
                } else {
                    best
                };
                let new_move = if better {
                    Some(moves[next as int])
                } else {
                    best_move
                };
                if larger(alpha, score) < i32::MAX {
                    lemma_lmr_root_keeps_move(
                        keys,
                        position,
                        depth,
                        larger(alpha, score),
                        color,
                        moves,
                        next + 1,
                        new_best,
                        new_move,
                        child.table,
                    );
                }
            },
        }
    }
}

/// The best move of a search of the moves with late move reductions is
/// the best move it started with or one of the moves it searched.
pub proof fn lemma_lmr_root_best_is_searched(
    keys: Zobrist,
    position: Position,
    depth: int,
    alpha: i32,
    color: Color,
    moves: Seq<(Square, Square)>,
    next: nat,
    best: i32,
    best_move: Option<(Square, Square)>,
    table: Map<u64, TranspositionEntry>,
)
    ensures
        lmr_root_outcome(
            keys,
            position,
            depth,
            alpha,
            color,
            moves,
            next,
            best,
            best_move,
            table,
        ).best == best_move || (lmr_root_outcome(
            keys,
            position,
            depth,
            alpha,
            color,
            moves,
            next,
            best,
            best_move,
            table,
        ).best matches Some(found) && moves.contains(found)),
    decreases moves.len() - next,
{
    if next < moves.len() {
        let from = moves[next as int].0;
        let to = moves[next as int].1;
        assert(moves.contains(moves[next as int]));
        match position.occupant(from.index()) {
            None => {
                lemma_lmr_root_best_is_searched(
                    keys,
                    position,
                    depth,
                    alpha,
                    color,
                    moves,
                    next + 1,
                    best,
                    best_move,
                    table,
                );
            },
            Some((piece, _)) => {
                let child = lmr_outcome(
                    keys,
                    position.after_move(from, to, piece, color),
                    depth - 1,
                    negation(i32::MAX),
                    negation(alpha),
                    color.other(),
                    table,
                );
                let score = negation(child.score);
                let better = score > best;
                let new_best = if better {
                    score
                } else {
                    best
                };
                let new_move = if better {
                    Some(moves[next as int])
                } else {
                    best_move
                };
                if larger(alpha, score) < i32::MAX {
                    lemma_lmr_root_best_is_searched(
                        keys,
                        position,
                        depth,
                        larger(alpha, score),
                        color,
                        moves,
                        next + 1,
                        new_best,
                        new_move,
                        child.table,
                    );
                }
            },
        }
    }
}

/// A search of the moves with late move reductions finds a move exactly
/// where the mover has a legal move.
pub proof fn lemma_lmr_root_finds_move(
    keys: Zobrist,
    position: Position,
    depth: int,
    color: Color,
    table: Map<u64, TranspositionEntry>,
)
    requires
        position.pieces.len() == 12,
    ensures
        lmr_root_outcome(
            keys,
            position,
            depth,
            i32::MIN,
            color,
            position.legal_moves(color),
            0,
            i32::MIN,
            None,
            table,
        ).best is Some <==> position.legal_moves(color).len() > 0,
{
    let moves = position.legal_moves(color);
    if moves.len() > 0 {
        let from = moves[0].0;
        let to = moves[0].1;
        crate::board::generate::lemma_legal_move_occupied(position, color, 0);
        let square = from.index();
        let occupant = position.occupant(square)->0;
        let piece = occupant.0;
        let child = lmr_outcome(
            keys,
            position.after_move(from, to, piece, color),
            depth - 1,
            negation(i32::MAX),
            negation(i32::MIN),
            color.other(),
            table,
        );
        let score = negation(child.score);
        assert(score > i32::MIN);
        if larger(i32::MIN, score) < i32::MAX {
            lemma_lmr_root_keeps_move(
                keys,
                position,
                depth,
                larger(i32::MIN, score),
                color,
                moves,
                1,
                score,
                Some(moves[0]),
                child.table,
            );
        }
    }
}

/// To depth one, the search of the moves with late move reductions is the
/// plain search of the moves: nothing is reduced below depth zero.
pub proof fn lemma_lmr_root_at_depth_one(
    keys: Zobrist,
    position: Position,
    alpha: i32,
    color: Color,
    moves: Seq<(Square, Square)>,
    next: nat,
    best: i32,
    best_move: Option<(Square, Square)>,
    table: Map<u64, TranspositionEntry>,
)
    ensures
        lmr_root_outcome(keys, position, 1, alpha, color, moves, next, best, best_move, table)
            == moves_outcome(
            keys,
            position,
            1,
            alpha,
            i32::MAX,
            color,
            moves,
            next,
            best,
            best_move,
            table,
        ),
    decreases moves.len() - next,
{
    reveal(lmr_outcome);
    if next < moves.len() {
        let from = moves[next as int].0;
        let to = moves[next as int].1;
        match position.occupant(from.index()) {
            None => {
                lemma_lmr_root_at_depth_one(
                    keys,
                    position,
                    alpha,
                    color,
                    moves,
                    next + 1,
                    best,
                    best_move,
                    table,
                );
            },
            Some((piece, _)) => {
                let child = negamax_outcome(
                    keys,
                    position.after_move(from, to, piece, color),
                    0,
                    negation(i32::MAX),
                    negation(alpha),
                    color.other(),
                    table,
                );
                let score = negation(child.score);
                let better = score > best;
                let new_best = if better {
                    score
                } else {
                    best
                };
                let new_move = if better {
                    Some(moves[next as int])
                } else {
                    best_move
                };
                if larger(alpha, score) < i32::MAX {
                    lemma_lmr_root_at_depth_one(
                        keys,
                        position,
                        larger(alpha, score),
                        color,
                        moves,
                        next + 1,
                        new_best,
                        new_move,
                        child.table,
                    );
                }
            },
        }
    }
}

/// To depth one, every way of searching finds the best move of the plain
/// negamax search.
pub proof fn lemma_strategies_agree_at_depth_one(
    strategy: SearchStrategy,
    keys: Zobrist,
    position: Position,
    max_depth: i32,
    color: Color,
    table: Map<u64, TranspositionEntry>,
)
    requires
        position.pieces.len() == 12,
        max_depth <= 1,
    ensures
        strategy_outcome(strategy, keys, position, max_depth, color, table).best
            == negamax_outcome(keys, position, 1, i32::MIN, i32::MAX, color, table).best,
{
    let moves = position.legal_moves(color);
    match strategy {
        SearchStrategy::Negamax => {},
        SearchStrategy::IterativeDeepening => {
            if moves.len() > 0 {
                let run = negamax_outcome(keys, position, 1, i32::MIN, i32::MAX, color, table);
                crate::search::negamax::lemma_search_finds_move(
                    keys,
                    position,
                    1,
                    i32::MIN,
                    i32::MAX,
                    color,
                    table,
                );
                let next = Outcome {
                    score: run.score,
                    best: crate::search::iterative::filed_move(run.table, keys.key_of(position)),
                    table: run.table,
                };
                assert(crate::search::iterative::deepening_outcome(
                    keys,
                    position,
                    2,
                    1,
                    color,
                    next,
                ) == next);
                assert(crate::search::iterative::deepening_outcome(
                    keys,
                    position,
                    1,
                    1,
                    color,
                    Outcome { score: 0, best: None, table },
                ) == next);
            }
        },
        SearchStrategy::LateMoveReductions => {
            lemma_lmr_root_at_depth_one(
                keys,
                position,
                i32::MIN,
                color,
                moves,
                0,
                i32::MIN,
                None,
                table,
            );
            if moves.len() == 0 {
            }
        },
    }
}

/// What a search returns, by the way it searches.
pub open spec fn strategy_outcome(
    strategy: SearchStrategy,
    keys: Zobrist,
    position: Position,
    max_depth: i32,
    color: Color,
    table: Map<u64, TranspositionEntry>,
) -> Outcome {
    match strategy {
        SearchStrategy::IterativeDeepening => iterative_outcome(
            keys,
            position,
            at_least_one(max_depth) as int,
            color,
            table,
        ),
        SearchStrategy::Negamax => negamax_outcome(
            keys,
            position,
            at_least_one(max_depth) as int,
            i32::MIN,
            i32::MAX,
            color,
            table,
        ),
        SearchStrategy::LateMoveReductions => lmr_root_outcome(
            keys,
            position,
            at_least_one(max_depth) as int,
            i32::MIN,
            color,
            position.legal_moves(color),
            0,
            i32::MIN,
            None,
            table,
        ),
    }
}

/// The search for a kind of position: iterative deepening for open,
/// semi-open and complex positions, late move reductions for closed and
/// semi-closed ones, plain negamax for endgames and trivial positions.
pub fn choose_search_strategy(position_type: PositionType) -> (strategy: SearchStrategy)
    ensures
        strategy == search_for(position_type),
{
    match position_type {
        PositionType::Open | PositionType::SemiOpen => SearchStrategy::IterativeDeepening,
        PositionType::Closed | PositionType::SemiClosed => SearchStrategy::LateMoveReductions,
        PositionType::Endgame => SearchStrategy::Negamax,
        PositionType::Complex => SearchStrategy::IterativeDeepening,
        PositionType::Trivial => SearchStrategy::Negamax,
    }
}

/// The evaluation for a kind of position.
pub fn choose_evaluation_strategy(position_type: PositionType) -> (strategy: EvaluationStrategy)
    ensures
        strategy == evaluation_for(position_type),
{
    match position_type {
        PositionType::Endgame => EvaluationStrategy::Endgame,
        PositionType::Complex => EvaluationStrategy::Complex,
        _ => EvaluationStrategy::General,
    }
}

/// The best move by iterative deepening.
pub fn iterative_deepening_strategy(
    board: &mut Board,
    max_depth: i32,
    color: Color,
    transposition_table: &mut TranspositionTable,
) -> (best: Result<(Square, Square), ChessError>)
    requires
        old(board).wf(),
        old(transposition_table).wf(),
    ensures
        best == move_or_error(
            strategy_outcome(
                SearchStrategy::IterativeDeepening,
                old(transposition_table).zobrist,
                old(board)@,
                max_depth,
                color,
                old(transposition_table)@,
            ).best,
        ),
        final(transposition_table)@ == strategy_outcome(
            SearchStrategy::IterativeDeepening,
            old(transposition_table).zobrist,
            old(board)@,
            max_depth,
            color,
            old(transposition_table)@,
        ).table,
        best is Ok <==> old(board)@.legal_moves(color).len() > 0,
        best matches Ok(found) ==> old(board)@.legal(found, color),
        final(transposition_table).zobrist == old(transposition_table).zobrist,
        final(board)@ == old(board)@,
        final(board).past() == old(board).past(),
        final(board).wf(),
{
    Search::iterative_deepening(board, max_depth, color, transposition_table)
}

/// The best move by one negamax search.
pub fn negamax_strategy(
    board: &mut Board,
    max_depth: i32,
    color: Color,
    transposition_table: &mut TranspositionTable,
) -> (best: Result<(Square, Square), ChessError>)
    requires
        old(board).wf(),
        old(transposition_table).wf(),
    ensures
        best == move_or_error(
            strategy_outcome(
                SearchStrategy::Negamax,
                old(transposition_table).zobrist,
                old(board)@,
                max_depth,
                color,
                old(transposition_table)@,
            ).best,
        ),
        final(transposition_table)@ == strategy_outcome(
            SearchStrategy::Negamax,
            old(transposition_table).zobrist,
            old(board)@,
            max_depth,
            color,
            old(transposition_table)@,
        ).table,
        best is Ok <==> old(board)@.legal_moves(color).len() > 0,
        best matches Ok(found) ==> old(board)@.legal(found, color),
        final(transposition_table).zobrist == old(transposition_table).zobrist,
        final(board)@ == old(board)@,
        final(board).past() == old(board).past(),
        final(board).wf(),
{
    Search::best_move(board, max_depth, color, transposition_table)
}

/// The best move by a search of every move with late move reductions.
pub fn lmr_strategy(
    board: &mut Board,
    max_depth: i32,
    color: Color,
    transposition_table: &mut TranspositionTable,
) -> (best: Result<(Square, Square), ChessError>)
    requires
        old(board).wf(),
        old(transposition_table).wf(),
    ensures
        best == move_or_error(
            strategy_outcome(
                SearchStrategy::LateMoveReductions,
                old(transposition_table).zobrist,
                old(board)@,
                max_depth,
                color,
                old(transposition_table)@,
            ).best,
        ),
        final(transposition_table)@ == strategy_outcome(
            SearchStrategy::LateMoveReductions,
            old(transposition_table).zobrist,
            old(board)@,
            max_depth,
            color,
            old(transposition_table)@,
        ).table,
        best is Ok <==> old(board)@.legal_moves(color).len() > 0,
        best matches Ok(found) ==> old(board)@.legal(found, color),
        final(transposition_table).zobrist == old(transposition_table).zobrist,
        final(board)@ == old(board)@,
        final(board).past() == old(board).past(),
        final(board).wf(),
{
    let depth = if max_depth < 1 {
        1
    } else {
        max_depth
    };
    let beta: i32 = i32::MAX;
    let legal_moves = board.generate_legal_moves(color);
    proof {
        lemma_lmr_root_finds_move(
            transposition_table.zobrist,
            board@,
            depth as int,
            color,
            transposition_table@,
        );
        lemma_lmr_root_best_is_searched(
            transposition_table.zobrist,
            board@,
            depth as int,
            i32::MIN,
            color,
            board@.legal_moves(color),
            0,
            i32::MIN,
            None,
            transposition_table@,
        );
        let found = lmr_root_outcome(
            transposition_table.zobrist,
            board@,
            depth as int,
            i32::MIN,
            color,
            board@.legal_moves(color),
            0,
            i32::MIN,
            None,
            transposition_table@,
        ).best;
        if found is Some {
            board@.lemma_legal_moves(color, found->0);
        }
    }
    let ghost keys = transposition_table.zobrist;
    let ghost position = board@;
    let ghost past = board.past();
    let ghost whole = lmr_root_outcome(
        keys,
        position,
        depth as int,
        i32::MIN,
        color,
        legal_moves@,
        0,
        i32::MIN,
        None,
        transposition_table@,
    );
    let mut best_move: Option<(Square, Square)> = None;
    let mut best_score: i32 = i32::MIN;
    let mut lower: i32 = i32::MIN;
    let mut cut = false;
    let mut i: usize = 0;
    while i < legal_moves.len() && !cut
        invariant
            i <= legal_moves@.len(),
            depth >= 1,
            beta == i32::MAX,
            board@ == position,
            board.past() == past,
            board.wf(),
            transposition_table.wf(),
            transposition_table.zobrist == keys,
            whole == (if cut {
                Outcome { score: best_score, best: best_move, table: transposition_table@ }
            } else {
                lmr_root_outcome(
                    keys,
                    position,
                    depth as int,
                    lower,
                    color,
                    legal_moves@,
                    i as nat,
                    best_score,
                    best_move,
                    transposition_table@,
                )
            }),
        decreases legal_moves@.len() - i + (if cut { 0int } else { 1int }),
    {
        let m = legal_moves[i];
        match board.get_piece_at_square(m.0) {
            Some((piece, _)) => {
                board.make_move(m.0, m.1, piece, color);
                let score = negated(
                    late_move_reductions(
                        board,
                        depth - 1,
                        negated(beta),
                        negated(lower),
                        color.opponent(),
                        transposition_table,
                    ),
                );
                board.unmake_move(m.0, m.1, piece, color);
                proof {
                    assert(past.push(position).drop_last() =~= past);
                }
                if score > best_score {
                    best_score = score;
                    best_move = Some(m);
                }
                if score > lower {
                    lower = score;
                }
                if lower >= beta {
                    cut = true;
                }
            },
            None => {},
        }
        i += 1;
    }
    match best_move {
        Some(m) => Ok(m),
        None => Err(ChessError::NoLegalMove),
    }
}

/// The evaluation of positions in general.
pub fn general_evaluation_strategy(board: &Board, color: Color) -> (score: i32)
    ensures
        score == board@.score(color),
{
    Evaluation::evaluate(board, color)
}

/// The evaluation of endgames.
pub fn endgame_evaluation_strategy(board: &Board, color: Color) -> (score: i32)
    ensures
        score == board@.score(color),
{
    Evaluation::evaluate(board, color)
}

/// The evaluation of complex positions.
pub fn complex_evaluation_strategy(board: &Board, color: Color) -> (score: i32)
    ensures
        score == board@.score(color),
{
    Evaluation::evaluate(board, color)
}

/// Searches for the best move in the given way.
pub fn run_search(
    strategy: SearchStrategy,
    board: &mut Board,
    max_depth: i32,
    color: Color,
    transposition_table: &mut TranspositionTable,
) -> (best: Result<(Square, Square), ChessError>)
    requires
        old(board).wf(),
        old(transposition_table).wf(),
    ensures
        best == move_or_error(
            strategy_outcome(
                strategy,
                old(transposition_table).zobrist,
                old(board)@,
                max_depth,
                color,
                old(transposition_table)@,
            ).best,
        ),
        final(transposition_table)@ == strategy_outcome(
            strategy,
            old(transposition_table).zobrist,
            old(board)@,
            max_depth,
            color,
            old(transposition_table)@,
        ).table,
        best is Ok <==> old(board)@.legal_moves(color).len() > 0,
        best matches Ok(found) ==> old(board)@.legal(found, color),
        max_depth <= 1 && has_mate_in_one(old(board)@, color) ==> (best matches Ok(found)
            && mates(old(board)@, found, color)),
        final(transposition_table).zobrist == old(transposition_table).zobrist,
        final(board)@ == old(board)@,
        final(board).past() == old(board).past(),
        final(board).wf(),
{
    proof {
        if max_depth <= 1 {
            lemma_strategies_agree_at_depth_one(
                strategy,
                transposition_table.zobrist,
                board@,
                max_depth,
                color,
                transposition_table@,
            );
            if has_mate_in_one(board@, color) {
                lemma_mate_is_found(
                    transposition_table.zobrist,
                    board@,
                    color,
                    transposition_table@,
                );
            }
        }
    }
    match strategy {
        SearchStrategy::IterativeDeepening => iterative_deepening_strategy(
            board,
            max_depth,
            color,
            transposition_table,
        ),
        SearchStrategy::LateMoveReductions => lmr_strategy(
            board,
            max_depth,
            color,
            transposition_table,
        ),
        SearchStrategy::Negamax => negamax_strategy(board, max_depth, color, transposition_table),
    }
}

/// Evaluates the position in the given way.
pub fn run_evaluation(strategy: EvaluationStrategy, board: &Board, color: Color) -> (score: i32)
    ensures
        score == board@.score(color),
{
    match strategy {
        EvaluationStrategy::General => general_evaluation_strategy(board, color),
        EvaluationStrategy::Endgame => endgame_evaluation_strategy(board, color),
        EvaluationStrategy::Complex => complex_evaluation_strategy(board, color),
    }
}

} // verus!
