//! The turns of a game between a player and the engine: what the engine
//! answers, and what becomes of what the player types.

use crate::arbiter::strategy::{search_for, strategy_outcome};
use crate::arbiter::Arbiter;
use crate::board::Board;
use crate::error::ChessError;
use crate::notation::{move_named, parse_move};
use crate::piece::Color;
use crate::search::negamax::move_or_error;
use crate::search::opening_book::{first_line, OpeningBook};
use crate::search::polyglot_book::{move_source, move_target};
use crate::square::Square;
use vstd::prelude::*;
use vstd::string::*;

verus! {

/// What became of a move that the player typed.
#[derive(Copy, Clone, Debug, PartialEq, Eq, Structural)]
pub enum PlayerTurn {
    /// The move was legal and has been applied.
    Applied,
    /// The text names a move, but not a legal one.
    Illegal,
    /// The text names no move.
    Unreadable,
}

/// Where the engine's move came from.
#[derive(Copy, Clone, Debug, PartialEq, Eq, Structural)]
pub enum MoveSource {
    /// The opening book had a move for the position.
    Book,
    /// The search found the move.
    Search,
}

/// The side that the player asks for: `w` for White, `b` for Black, `r` for
/// the side that the toss of a coin gives, and White for anything else.
pub open spec fn side_asked_for(choice: Seq<u8>, coin: bool) -> Color {
    if choice.len() == 1 && choice[0] == 98 {
        Color::Black
    } else if choice.len() == 1 && choice[0] == 114 {
        if coin {
            Color::White
        } else {
            Color::Black
        }
    } else {
        Color::White
    }
}

/// The side that the player plays, by what was asked for and by the toss of
/// a coin.
pub fn player_color(choice: &str, coin: bool) -> (color: Color)
    ensures
        color == side_asked_for(choice.spec_bytes(), coin),
{
    let bytes = choice.as_bytes_vec();
    if bytes.len() == 1 && bytes[0] == 98 {
        Color::Black
    } else if bytes.len() == 1 && bytes[0] == 114 {
        if coin {
            Color::White
        } else {
            Color::Black
        }
    } else {
        Color::White
    }
}

/// A search depth as the searches take it: the depth itself, or the
/// greatest depth there is.
pub open spec fn depth_of(depth: u32) -> i32 {
    if depth > i32::MAX {
        i32::MAX
    } else {
        depth as i32
    }
}

/// The turn of the player: the text is read as a move, and the move is
/// applied if it is legal for `color`. Otherwise the board stays as it is.
pub fn player_turn(board: &mut Board, input: &str, color: Color) -> (turn: PlayerTurn)
    requires
        old(board).wf(),
    ensures
        match move_named(input.spec_bytes()) {
            None => {
                &&& turn == PlayerTurn::Unreadable
                &&& final(board)@ == old(board)@
                &&& final(board).past() == old(board).past()
            },
            Some(mv) => if old(board)@.legal(mv, color) {
                &&& turn == PlayerTurn::Applied
                &&& old(board)@.occupant(mv.0.index()) matches Some(found)
                &&& final(board)@ == old(board)@.after_applied(mv, found.0, color)
                &&& final(board).past() == old(board).past().push(old(board)@)
            } else {
                &&& turn == PlayerTurn::Illegal
                &&& final(board)@ == old(board)@
                &&& final(board).past() == old(board).past()
            },
        },
        final(board).wf(),
{
    match parse_move(input) {
        Some(mv) => {
            if board.is_legal_move(mv, color) {
                match board.apply_move(mv, color) {
                    Ok(()) => PlayerTurn::Applied,
                    Err(_) => PlayerTurn::Illegal,
                }
            } else {
                PlayerTurn::Illegal
            }
        },
        None => PlayerTurn::Unreadable,
    }
}

/// The move of the engine for `color`: in the opening, the move that the
/// book has for the position, if it has one; otherwise the move that the
/// search finds, to the given depth. The board is left as it was.
pub fn engine_turn(
    engine: &mut Arbiter,
    board: &mut Board,
    depth: u32,
    color: Color,
    opening_book: &OpeningBook,
    in_opening_phase: bool,
) -> (answer: (Result<(Square, Square), ChessError>, MoveSource))
    requires
        old(board).wf(),
        old(engine).wf(),
    ensures
        match first_line(
            opening_book.lines@,
            old(engine).transposition_table.zobrist.key_of(old(board)@),
            0,
        ) {
            Some(line) if in_opening_phase => {
                &&& answer.1 == MoveSource::Book
                &&& answer.0 matches Ok(mv)
                &&& mv.0.index() == move_source(line.book_move)
                &&& mv.1.index() == move_target(line.book_move)
                &&& final(engine).transposition_table@ == old(engine).transposition_table@
            },
            _ => {
                &&& answer.1 == MoveSource::Search
                &&& answer.0 == move_or_error(
                    strategy_outcome(
                        search_for(old(board)@.kind(color)),
                        old(engine).transposition_table.zobrist,
                        old(board)@,
                        depth_of(depth),
                        color,
                        old(engine).transposition_table@,
                    ).best,
                )
                &&& answer.0 is Ok <==> old(board)@.legal_moves(color).len() > 0
                &&& answer.0 matches Ok(found) ==> old(board)@.legal(found, color)
            },
        },
        final(engine).transposition_table.zobrist == old(engine).transposition_table.zobrist,
        final(engine).wf(),
        final(board)@ == old(board)@,
        final(board).past() == old(board).past(),
        final(board).wf(),
{
    if in_opening_phase {
        let position_hash = board.compute_zobrist_hash(&engine.transposition_table.zobrist);
        match opening_book.get_move(position_hash) {
            Some(found) => {
                let book_move = found.0;
                return (Ok(OpeningBook::polyglot_move_to_squares(book_move)), MoveSource::Book);
            },
            None => {},
        }
    }
    let max_depth: i32 = if depth > 2147483647 {
        i32::MAX
    } else {
        depth as i32
    };
    (engine.search_best_move(board, max_depth, color), MoveSource::Search)
}

} // verus!
