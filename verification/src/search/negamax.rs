//! Negamax with alpha-beta pruning.
//!
//! A position is scored for the side to move. A position without legal
//! moves is lost if the mover is in check and drawn if not. At depth zero
//! the score is that of the quiescence search. Otherwise every legal move is
//! made, the position after it scored for the opponent with the window
//! negated and swapped, and taken back; the best of the negated scores is
//! the score of the position. Moves are no longer tried once a score meets
//! the upper bound.
//!
//! [`negamax_outcome`] says what a search returns and what it leaves in the
//! cache; [`Search::negamax`] computes it, and leaves the board as it found
//! it.

use crate::board::zobrist::Zobrist;
use crate::board::{Board, Position};
use crate::error::ChessError;
use crate::eval::evaluation::Evaluation;
use crate::piece::Color;
use crate::search::mate::{has_mate_in_one, lemma_mate_is_found, mates};
use crate::search::transposition::{entry_at, TranspositionEntry, TranspositionTable};
use crate::square::Square;
use vstd::prelude::*;

verus! {

/// The searches of the engine.
pub struct Search;

/// The score of a position in which the mover is checkmated, negated. No
/// evaluation comes near it.
pub const MATE_SCORE: i32 = 1_000_000;

/// How many captures in a row the quiescence search follows.
pub const QUIESCENCE_LIMIT: u32 = 32;

/// The negation of a score; the lowest score of all, which has no negation,
/// gives the highest.
pub open spec fn negation(score: i32) -> i32 {
    if score == i32::MIN {
        i32::MAX
    } else {
        (-score) as i32
    }
}

/// The larger of two scores.
pub open spec fn larger(a: i32, b: i32) -> i32 {
    if a >= b {
        a
    } else {
        b
    }
}

/// What a search returns and leaves behind.
pub struct Outcome {
    /// The score of the position for the side to move.
    pub score: i32,
    /// The best move, if a move was searched.
    pub best: Option<(Square, Square)>,
    /// The cache after the search.
    pub table: Map<u64, TranspositionEntry>,
}

/// The score of the quiescence search of `position` for `color` in the
/// window from `alpha` to `beta`, following at most `plies` captures in a
/// row.
///
/// The static evaluation stands if it meets `beta`, which is then the score,
/// or if no more captures are followed. Otherwise the score is the best of
/// the evaluation and the captures.
pub open spec fn quiescence_value(
    position: Position,
    alpha: i32,
    beta: i32,
    color: Color,
    plies: nat,
) -> i32
    decreases plies, 1nat, 0nat,
{
    let stand_pat = position.score(color) as i32;
    if stand_pat >= beta {
        beta
    } else if plies == 0 {
        stand_pat
    } else {
        captures_value(
            position,
            larger(alpha, stand_pat),
            beta,
            color,
            position.captures(color),
            0,
            stand_pat,
            plies,
        )
    }
}

/// The score of the quiescence search once the captures before the `next`
/// have been searched, with `best` the best score so far.
pub open spec fn captures_value(
    position: Position,
    alpha: i32,
    beta: i32,
    color: Color,
    moves: Seq<(Square, Square)>,
    next: nat,
    best: i32,
    plies: nat,
) -> i32
    decreases plies, 0nat, moves.len() - next,
{
    if next >= moves.len() || plies == 0 {
        best
    } else {
        let from = moves[next as int].0;
        let to = moves[next as int].1;
        match position.occupant(from.index()) {
            None => captures_value(position, alpha, beta, color, moves, next + 1, best, plies),
            Some((piece, _)) => {
                let score = negation(
                    quiescence_value(
                        position.after_move(from, to, piece, color),
                        negation(beta),
                        negation(alpha),
                        color.other(),
                        (plies - 1) as nat,
                    ),
                );
                if larger(alpha, score) >= beta {
                    larger(best, score)
                } else {
                    captures_value(
                        position,
                        larger(alpha, score),
                        beta,
                        color,
                        moves,
                        next + 1,
                        larger(best, score),
                        plies,
                    )
                }
            },
        }
    }
}

/// The depth of a search as a measure: nothing for a depth below zero.
pub open spec fn depth_left(depth: int) -> nat {
    if depth > 0 {
        depth as nat
    } else {
        0
    }
}

/// What the negamax search of `position` for `color` returns, to depth
/// `depth` in the window from `alpha` to `beta`, with the position keys of
/// `keys` and starting from the cache `table`.
///
/// A position that was expanded is filed in the cache under its key, with
/// the depth, the score and the best move.
pub open spec fn negamax_outcome(
    keys: Zobrist,
    position: Position,
    depth: int,
    alpha: i32,
    beta: i32,
    color: Color,
    table: Map<u64, TranspositionEntry>,
) -> Outcome
    decreases depth_left(depth), 1nat, 0nat,
{
    let moves = position.legal_moves(color);
    if moves.len() == 0 {
        Outcome {
            score: if position.in_check(color) {
                (-MATE_SCORE) as i32
            } else {
                0
            },
            best: None,
            table,
        }
    } else if depth <= 0 {
        Outcome {
            score: quiescence_value(position, alpha, beta, color, QUIESCENCE_LIMIT as nat),
            best: None,
            table,
        }
    } else {
        let found = moves_outcome(
            keys,
            position,
            depth,
            alpha,
            beta,
            color,
            moves,
            0,
            i32::MIN,
            None,
            table,
        );
        Outcome {
            table: found.table.insert(
                keys.key_of(position),
                TranspositionEntry {
                    depth: depth as i32,
                    score: found.score,
                    best_move: found.best,
                },
            ),
            ..found
        }
    }
}

/// What the search of the moves from the `next` on returns, with `best` and
/// `best_move` the best score and move so far. A move from a square
/// without a piece is passed over; a position that meets the invariant has
/// no such legal move.
pub open spec fn moves_outcome(
    keys: Zobrist,
    position: Position,
    depth: int,
    alpha: i32,
    beta: i32,
    color: Color,
    moves: Seq<(Square, Square)>,
    next: nat,
    best: i32,
    best_move: Option<(Square, Square)>,
    table: Map<u64, TranspositionEntry>,
) -> Outcome
    decreases depth_left(depth), 0nat, moves.len() - next,
{
    if next >= moves.len() || depth <= 0 {
        Outcome { score: best, best: best_move, table }
    } else {
        let from = moves[next as int].0;
        let to = moves[next as int].1;
        match position.occupant(from.index()) {
            None => moves_outcome(
                keys,
                position,
                depth,
                alpha,
                beta,
                color,
                moves,
                next + 1,
                best,
                best_move,
                table,
            ),
            Some((piece, _)) => {
                let child = negamax_outcome(
                    keys,
                    position.after_move(from, to, piece, color),
                    depth - 1,
                    negation(beta),
                    negation(alpha),
                    color.other(),
                    table,
                );
                let score = negation(child.score);
                let better = score > best;
                let new_best = if better {
                    score
                } else {
                    best
                };
                let new_move = if better {
                    Some(moves[next as int])
                } else {
                    best_move
                };
                if larger(alpha, score) >= beta {
                    Outcome { score: new_best, best: new_move, table: child.table }
                } else {
                    moves_outcome(
                        keys,
                        position,
                        depth,
                        larger(alpha, score),
                        beta,
                        color,
                        moves,
                        next + 1,
                        new_best,
                        new_move,
                        child.table,
                    )
                }
            },
        }
    }
}

/// A search that has a best move keeps one.
pub proof fn lemma_search_keeps_move(
    keys: Zobrist,
    position: Position,
    depth: int,
    alpha: i32,
    beta: i32,
    color: Color,
    moves: Seq<(Square, Square)>,
    next: nat,
    best: i32,
    best_move: Option<(Square, Square)>,
    table: Map<u64, TranspositionEntry>,
)
    requires
        best_move is Some,
    ensures
        moves_outcome(
            keys,
            position,
            depth,
            alpha,
            beta,
            color,
            moves,
            next,
            best,
            best_move,
            table,
        ).best is Some,
    decreases moves.len() - next,
{
    if next < moves.len() && depth > 0 {
        let from = moves[next as int].0;
        let to = moves[next as int].1;
        match position.occupant(from.index()) {
            None => {
                lemma_search_keeps_move(
                    keys,
                    position,
                    depth,
                    alpha,
                    beta,
                    color,
                    moves,
                    next + 1,
                    best,
                    best_move,
                    table,
                );
            },
            Some((piece, _)) => {
                let child = negamax_outcome(
                    keys,
                    position.after_move(from, to, piece, color),
                    depth - 1,
                    negation(beta),
                    negation(alpha),
                    color.other(),
                    table,
                );
                let score = negation(child.score);
                let better = score > best;
                let new_best = if better {
                    score
                } else {
                    best
                };
                let new_move = if better {
                    Some(moves[next as int])
                } else {
                    best_move
                };
                if larger(alpha, score) < beta {
                    lemma_search_keeps_move(
                        keys,
                        position,
                        depth,
                        larger(alpha, score),
                        beta,
                        color,
                        moves,
                        next + 1,
                        new_best,
                        new_move,
                        child.table,
                    );
                }
            },
        }
    }
}

/// The best move of a search is the best move it started with or one of
/// the moves it searched.
pub proof fn lemma_best_is_searched(
    keys: Zobrist,
    position: Position,
    depth: int,
    alpha: i32,
    beta: i32,
    color: Color,
    moves: Seq<(Square, Square)>,
    next: nat,
    best: i32,
    best_move: Option<(Square, Square)>,
    table: Map<u64, TranspositionEntry>,
)
    ensures
        moves_outcome(
            keys,
            position,
            depth,
            alpha,
            beta,
            color,
            moves,
            next,
            best,
            best_move,
            table,
        ).best == best_move || (moves_outcome(
            keys,
            position,
            depth,
            alpha,
            beta,
            color,
            moves,
            next,
            best,
            best_move,
            table,
        ).best matches Some(found) && moves.contains(found)),
    decreases moves.len() - next,
{
    if next < moves.len() && depth > 0 {
        let from = moves[next as int].0;
        let to = moves[next as int].1;
        assert(moves.contains(moves[next as int]));
        match position.occupant(from.index()) {
            None => {
                lemma_best_is_searched(
                    keys,
                    position,
                    depth,
                    alpha,
                    beta,
                    color,
                    moves,
                    next + 1,
                    best,
                    best_move,
                    table,
                );
            },
            Some((piece, _)) => {
                let child = negamax_outcome(
                    keys,
                    position.after_move(from, to, piece, color),
                    depth - 1,
                    negation(beta),
                    negation(alpha),
                    color.other(),
                    table,
                );
                let score = negation(child.score);
                let better = score > best;
                let new_best = if better {
                    score
                } else {
                    best
                };
                let new_move = if better {
                    Some(moves[next as int])
                } else {
                    best_move
                };
                if larger(alpha, score) < beta {
                    lemma_best_is_searched(
                        keys,
                        position,
                        depth,
                        larger(alpha, score),
                        beta,
                        color,
                        moves,
                        next + 1,
                        new_best,
                        new_move,
                        child.table,
                    );
                }
            },
        }
    }
}

/// The best move of a negamax search is a legal move of the mover.
pub proof fn lemma_best_move_is_legal(
    keys: Zobrist,
    position: Position,
    depth: int,
    alpha: i32,
    beta: i32,
    color: Color,
    table: Map<u64, TranspositionEntry>,
)
    ensures
        negamax_outcome(keys, position, depth, alpha, beta, color, table).best matches Some(
            found,
        ) ==> position.legal_moves(color).contains(found),
{
    let moves = position.legal_moves(color);
    if moves.len() > 0 && depth > 0 {
        lemma_best_is_searched(
            keys,
            position,
            depth,
            alpha,
            beta,
            color,
            moves,
            0,
            i32::MIN,
            None,
            table,
        );
    }
}

/// A search whose first move starts on an occupied square finds a move.
pub proof fn lemma_first_move_searched(
    keys: Zobrist,
    position: Position,
    depth: int,
    alpha: i32,
    beta: i32,
    color: Color,
    moves: Seq<(Square, Square)>,
    table: Map<u64, TranspositionEntry>,
)
    requires
        depth > 0,
        moves.len() > 0,
        position.occupant(moves[0].0.index()) is Some,
    ensures
        moves_outcome(
            keys,
            position,
            depth,
            alpha,
            beta,
            color,
            moves,
            0,
            i32::MIN,
            None,
            table,
        ).best is Some,
{
    let from = moves[0].0;
    let to = moves[0].1;
    match position.occupant(from.index()) {
        None => {},
        Some((piece, _)) => {
            let child = negamax_outcome(
                keys,
                position.after_move(from, to, piece, color),
                depth - 1,
                negation(beta),
                negation(alpha),
                color.other(),
                table,
            );
            let score = negation(child.score);
            let better = score > i32::MIN;
            let new_best = if better {
                score
            } else {
                i32::MIN
            };
            let new_move = if better {
                Some(moves[0])
            } else {
                None
            };
            assert(better);
            if larger(alpha, score) < beta {
                lemma_search_keeps_move(
                    keys,
                    position,
                    depth,
                    larger(alpha, score),
                    beta,
                    color,
                    moves,
                    1,
                    new_best,
                    new_move,
                    child.table,
                );
            }
        },
    }
}

/// A search to a depth of one or more, of a position in which the mover
/// has a legal move, finds a move, and files it in the cache under the key
/// of the position.
pub proof fn lemma_search_finds_move(
    keys: Zobrist,
    position: Position,
    depth: int,
    alpha: i32,
    beta: i32,
    color: Color,
    table: Map<u64, TranspositionEntry>,
)
    requires
        position.pieces.len() == 12,
        depth > 0,
        position.legal_moves(color).len() > 0,
    ensures
        negamax_outcome(keys, position, depth, alpha, beta, color, table).best is Some,
        entry_at(
            negamax_outcome(keys, position, depth, alpha, beta, color, table).table,
            keys.key_of(position),
        ) == Some(
            TranspositionEntry {
                depth: depth as i32,
                score: negamax_outcome(keys, position, depth, alpha, beta, color, table).score,
                best_move: negamax_outcome(keys, position, depth, alpha, beta, color, table).best,
            },
        ),
{
    let moves = position.legal_moves(color);
    crate::board::generate::lemma_legal_move_occupied(position, color, 0);
    lemma_first_move_searched(keys, position, depth, alpha, beta, color, moves, table);
}

/// The negation of a score; the lowest score of all gives the highest.
pub fn negated(score: i32) -> (negated: i32)
    ensures
        negated == negation(score),
        negated > i32::MIN,
{
    if score == i32::MIN {
        i32::MAX
    } else {
        -score
    }
}

impl Search {
    /// The quiescence search with a limit on the captures followed in a row.
    pub fn quiescence_within(board: &mut Board, alpha: i32, beta: i32, color: Color, plies: u32)
        -> (score: i32)
        requires
            old(board).wf(),
        ensures
            score == quiescence_value(old(board)@, alpha, beta, color, plies as nat),
            final(board)@ == old(board)@,
            final(board).past() == old(board).past(),
            final(board).wf(),
        decreases plies,
    {
        let stand_pat = Evaluation::evaluate(board, color);
        if stand_pat >= beta {
            return beta;
        }
        if plies == 0 {
            return stand_pat;
        }
        let mut lower = if alpha >= stand_pat {
            alpha
        } else {
            stand_pat
        };
        let mut best_eval = stand_pat;
        let moves = board.generate_captures(color);
        let ghost position = board@;
        let ghost past = board.past();
        let ghost whole = quiescence_value(position, alpha, beta, color, plies as nat);
        let mut cut = false;
        let mut i: usize = 0;
        while i < moves.len() && !cut
            invariant
                i <= moves@.len(),
                plies > 0,
                board@ == position,
                board.past() == past,
                board.wf(),
                moves@ == position.captures(color),
                whole == (if cut {
                    best_eval
                } else {
                    captures_value(
                        position,
                        lower,
                        beta,
                        color,
                        moves@,
                        i as nat,
                        best_eval,
                        plies as nat,
                    )
                }),
            decreases moves@.len() - i + (if cut { 0int } else { 1int }),
        {
            let from = moves[i].0;
            let to = moves[i].1;
            match board.get_piece_at_square(from) {
                Some((piece, _)) => {
                    board.make_move(from, to, piece, color);
                    let eval = negated(
                        Search::quiescence_within(
                            board,
                            negated(beta),
                            negated(lower),
                            color.opponent(),
                            plies - 1,
                        ),
                    );
                    board.unmake_move(from, to, piece, color);
                    proof {
                        assert(past.push(position).drop_last() =~= past);
                    }
                    if eval > best_eval {
                        best_eval = eval;
                    }
                    if eval > lower {
                        lower = eval;
                    }
                    if lower >= beta {
                        cut = true;
                    }
                },
                None => {},
            }
            i += 1;
        }
        best_eval
    }

    /// The quiescence search: the static evaluation, improved by the
    /// captures that follow, so that a position is not judged in the middle
    /// of an exchange.
    pub fn quiescence_search(board: &mut Board, alpha: i32, beta: i32, color: Color) -> (score:
        i32)
        requires
            old(board).wf(),
        ensures
            score == quiescence_value(old(board)@, alpha, beta, color, QUIESCENCE_LIMIT as nat),
            final(board)@ == old(board)@,
            final(board).past() == old(board).past(),
            final(board).wf(),
    {
        Search::quiescence_within(board, alpha, beta, color, QUIESCENCE_LIMIT)
    }

    /// The negamax search: the score of the position for `color` and the
    /// best move, as [`negamax_outcome`] says. The board is left as it was.
    pub fn negamax(
        board: &mut Board,
        depth: i32,
        alpha: i32,
        beta: i32,
        color: Color,
        transposition_table: &mut TranspositionTable,
    ) -> (result: (i32, Option<(Square, Square)>))
        requires
            old(board).wf(),
            old(transposition_table).wf(),
        ensures
            result.0 == negamax_outcome(
                old(transposition_table).zobrist,
                old(board)@,
                depth as int,
                alpha,
                beta,
                color,
                old(transposition_table)@,
            ).score,
            result.1 == negamax_outcome(
                old(transposition_table).zobrist,
                old(board)@,
                depth as int,
                alpha,
                beta,
                color,
                old(transposition_table)@,
            ).best,
            final(transposition_table)@ == negamax_outcome(
                old(transposition_table).zobrist,
                old(board)@,
                depth as int,
                alpha,
                beta,
                color,
                old(transposition_table)@,
            ).table,
            final(transposition_table).zobrist == old(transposition_table).zobrist,
            final(board)@ == old(board)@,
            final(board).past() == old(board).past(),
            final(board).wf(),
        decreases depth_left(depth as int),
    {
        let legal_moves = board.generate_legal_moves(color);
        if legal_moves.len() == 0 {
            if board.in_check(color) {
                return (-MATE_SCORE, None);
            } else {
                return (0, None);
            }
        }
        if depth <= 0 {
            return (Search::quiescence_search(board, alpha, beta, color), None);
        }
        let ghost keys = transposition_table.zobrist;
        let ghost position = board@;
        let ghost past = board.past();
        let ghost whole = moves_outcome(
            keys,
            position,
            depth as int,
            alpha,
            beta,
            color,
            legal_moves@,
            0,
            i32::MIN,
            None,
            transposition_table@,
        );
        let mut lower = alpha;
        let mut best_score: i32 = i32::MIN;
        let mut best_move: Option<(Square, Square)> = None;
        let mut cut = false;
        let mut i: usize = 0;
        while i < legal_moves.len() && !cut
            invariant
                i <= legal_moves@.len(),
                depth > 0,
                board@ == position,
                board.past() == past,
                board.wf(),
                transposition_table.wf(),
                transposition_table.zobrist == keys,
                whole == (if cut {
                    Outcome { score: best_score, best: best_move, table: transposition_table@ }
                } else {
                    moves_outcome(
                        keys,
                        position,
                        depth as int,
                        lower,
                        beta,
                        color,
                        legal_moves@,
                        i as nat,
                        best_score,
                        best_move,
                        transposition_table@,
                    )
                }),
            decreases legal_moves@.len() - i + (if cut { 0int } else { 1int }),
        {
            let m = legal_moves[i];
            match board.get_piece_at_square(m.0) {
                Some((piece, _)) => {
                    board.make_move(m.0, m.1, piece, color);
                    let child = Search::negamax(
                        board,
                        depth - 1,
                        negated(beta),
                        negated(lower),
                        color.opponent(),
                        transposition_table,
                    );
                    board.unmake_move(m.0, m.1, piece, color);
                    proof {
                        assert(past.push(position).drop_last() =~= past);
                    }
                    let score = negated(child.0);
                    if score > best_score {
                        best_score = score;
                        best_move = Some(m);
                    }
                    if score > lower {
                        lower = score;
                    }
                    if lower >= beta {
                        cut = true;
                    }
                },
                None => {},
            }
            i += 1;
        }
        let key = board.compute_zobrist_hash(&transposition_table.zobrist);
        transposition_table.store(
            key,
            TranspositionEntry { depth, score: best_score, best_move },
        );
        (best_score, best_move)
    }

    /// The alpha-beta search: negamax under its other name.
    pub fn alpha_beta(
        board: &mut Board,
        depth: i32,
        alpha: i32,
        beta: i32,
        color: Color,
        transposition_table: &mut TranspositionTable,
    ) -> (result: (i32, Option<(Square, Square)>))
        requires
            old(board).wf(),
            old(transposition_table).wf(),
        ensures
            result.0 == negamax_outcome(
                old(transposition_table).zobrist,
                old(board)@,
                depth as int,
                alpha,
                beta,
                color,
                old(transposition_table)@,
            ).score,
            result.1 == negamax_outcome(
                old(transposition_table).zobrist,
                old(board)@,
                depth as int,
                alpha,
                beta,
                color,
                old(transposition_table)@,
            ).best,
            final(transposition_table)@ == negamax_outcome(
                old(transposition_table).zobrist,
                old(board)@,
                depth as int,
                alpha,
                beta,
                color,
                old(transposition_table)@,
            ).table,
            final(transposition_table).zobrist == old(transposition_table).zobrist,
            final(board)@ == old(board)@,
            final(board).past() == old(board).past(),
            final(board).wf(),
    {
        Search::negamax(board, depth, alpha, beta, color, transposition_table)
    }

    /// The best move for `color` by a negamax search to depth `max_depth`,
    /// or at least to depth one; `NoLegalMove` if the search finds no move.
    pub fn best_move(
        board: &mut Board,
        max_depth: i32,
        color: Color,
        transposition_table: &mut TranspositionTable,
    ) -> (best: Result<(Square, Square), ChessError>)
        requires
            old(board).wf(),
            old(transposition_table).wf(),
        ensures
            best == move_or_error(
                negamax_outcome(
                    old(transposition_table).zobrist,
                    old(board)@,
                    at_least_one(max_depth) as int,
                    i32::MIN,
                    i32::MAX,
                    color,
                    old(transposition_table)@,
                ).best,
            ),
            final(transposition_table)@ == negamax_outcome(
                old(transposition_table).zobrist,
                old(board)@,
                at_least_one(max_depth) as int,
                i32::MIN,
                i32::MAX,
                color,
                old(transposition_table)@,
            ).table,
            best is Ok <==> old(board)@.legal_moves(color).len() > 0,
            best matches Ok(found) ==> old(board)@.legal(found, color),
            max_depth <= 1 && has_mate_in_one(old(board)@, color) ==> (best matches Ok(found)
                && mates(old(board)@, found, color)),
            final(transposition_table).zobrist == old(transposition_table).zobrist,
            final(board)@ == old(board)@,
            final(board).past() == old(board).past(),
            final(board).wf(),
    {
        let depth = if max_depth < 1 {
            1
        } else {
            max_depth
        };
        proof {
            if max_depth <= 1 && has_mate_in_one(board@, color) {
                lemma_mate_is_found(
                    transposition_table.zobrist,
                    board@,
                    color,
                    transposition_table@,
                );
            }
            lemma_best_move_is_legal(
                transposition_table.zobrist,
                board@,
                depth as int,
                i32::MIN,
                i32::MAX,
                color,
                transposition_table@,
            );
            let found = negamax_outcome(
                transposition_table.zobrist,
                board@,
                depth as int,
                i32::MIN,
                i32::MAX,
                color,
                transposition_table@,
            ).best;
            if found is Some {
                board@.lemma_legal_moves(color, found->0);
            }
            if board@.legal_moves(color).len() > 0 {
                lemma_search_finds_move(
                    transposition_table.zobrist,
                    board@,
                    depth as int,
                    i32::MIN,
                    i32::MAX,
                    color,
                    transposition_table@,
                );
            }
        }
        let result = Search::negamax(
            board,
            depth,
            i32::MIN,
            i32::MAX,
            color,
            transposition_table,
        );
        match result.1 {
            Some(m) => Ok(m),
            None => Err(ChessError::NoLegalMove),
        }
    }
}

/// A search depth of at least one.
pub open spec fn at_least_one(depth: i32) -> i32 {
    if depth < 1 {
        1
    } else {
        depth
    }
}

/// The move that a search found, or the failure to find one.
pub open spec fn move_or_error(best: Option<(Square, Square)>) -> Result<
    (Square, Square),
    ChessError,
> {
    match best {
        Some(m) => Ok(m),
        None => Err(ChessError::NoLegalMove),
    }
}

} // verus!
