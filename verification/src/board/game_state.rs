//! Check, checkmate and stalemate.

use crate::board::{Board, Position};
use crate::piece::Color;
use vstd::prelude::*;

verus! {

/// The questions about the state of the game that a position answers.
pub struct GameState;

impl Position {
    /// Whether `color` is checkmated: it has no legal move and its king is
    /// attacked.
    pub open spec fn checkmated(self, color: Color) -> bool {
        self.legal_moves(color).len() == 0 && self.in_check(color)
    }

    /// Whether `color` is stalemated: it has no legal move and its king is
    /// not attacked.
    pub open spec fn stalemated(self, color: Color) -> bool {
        self.legal_moves(color).len() == 0 && !self.in_check(color)
    }
}

impl GameState {
    /// Whether `color` has no legal move and is in check.
    pub fn is_checkmate(board: &Board, color: Color) -> (mate: bool)
        requires
            board.wf(),
        ensures
            mate == board@.checkmated(color),
    {
        board.generate_legal_moves(color).len() == 0 && GameState::is_in_check(board, color)
    }

    /// Whether `color` has no legal move and is not in check.
    pub fn is_stalemate(board: &Board, color: Color) -> (stalemate: bool)
        requires
            board.wf(),
        ensures
            stalemate == board@.stalemated(color),
    {
        board.generate_legal_moves(color).len() == 0 && !GameState::is_in_check(board, color)
    }

    /// Whether some pseudo-legal move of the opponent lands on the square of
    /// the king of `color`.
    pub fn is_in_check(board: &Board, color: Color) -> (check: bool)
        ensures
            check == board@.in_check(color),
    {
        board.in_check(color)
    }

    /// Whether the game is over for `color`: checkmate or stalemate, that
    /// is, no legal move.
    pub fn is_game_over(board: &Board, color: Color) -> (over: bool)
        requires
            board.wf(),
        ensures
            over == (board@.checkmated(color) || board@.stalemated(color)),
            over == (board@.legal_moves(color).len() == 0),
    {
        GameState::is_checkmate(board, color) || GameState::is_stalemate(board, color)
    }
}

} // verus!
