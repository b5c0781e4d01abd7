//! The evaluation of a position: four terms, each White's share minus
//! Black's, added up and seen from the side that asks.

use crate::board::{Board, Position};
use crate::eval::king_safety::{evaluate_king_safety, side_king_safety};
use crate::eval::material::{evaluate_material, side_material};
use crate::eval::pawn_structure::{evaluate_pawn_structure, side_pawn_structure};
use crate::eval::psqt::evaluate_psqt;
use crate::piece::Color;
use vstd::prelude::*;

verus! {

/// The terms of an evaluation, each White's share minus Black's.
#[derive(Copy, Clone, Debug, PartialEq, Eq, Structural)]
pub struct Evaluation {
    pub material: i32,
    pub psqt: i32,
    pub king_safety: i32,
    pub pawn_structure: i32,
}

impl Position {
    /// The evaluation from White's side: material, piece-square bonus, king
    /// safety and pawn structure, each White's minus Black's, added up.
    pub open spec fn balance(self) -> int {
        self.material_term() + self.psqt_term() + self.king_safety_term()
            + self.pawn_structure_term()
    }

    /// The evaluation from the side of `color`: the balance for White, its
    /// negation for Black.
    pub open spec fn score(self, color: Color) -> int {
        if color == Color::White {
            self.balance()
        } else {
            -self.balance()
        }
    }
}

/// The evaluation for one side is the negation of the evaluation for the
/// other.
pub proof fn lemma_evaluation_antisymmetric(position: Position)
    ensures
        position.score(Color::White) == -position.score(Color::Black),
{
}

impl Evaluation {
    /// An evaluation with every term at zero.
    pub fn new() -> (evaluation: Evaluation)
        ensures
            evaluation == (Evaluation { material: 0, psqt: 0, king_safety: 0, pawn_structure: 0 }),
    {
        Evaluation { material: 0, psqt: 0, king_safety: 0, pawn_structure: 0 }
    }

    /// The four terms of the evaluation of `board`.
    pub fn terms(board: &Board) -> (evaluation: Evaluation)
        ensures
            evaluation.material == board@.material_term(),
            evaluation.psqt == board@.psqt_term(),
            evaluation.king_safety == board@.king_safety_term(),
            evaluation.pawn_structure == board@.pawn_structure_term(),
            -137600 <= evaluation.material <= 137600,
            -30400 <= evaluation.psqt <= 30400,
            -720 <= evaluation.king_safety <= 720,
            -5120 <= evaluation.pawn_structure <= 5120,
    {
        Evaluation {
            material: evaluate_material(board),
            psqt: evaluate_psqt(board),
            king_safety: evaluate_king_safety(board),
            pawn_structure: evaluate_pawn_structure(board),
        }
    }

    /// The evaluation of `board` from the side of `color`.
    pub fn evaluate(board: &Board, color: Color) -> (score: i32)
        ensures
            score == board@.score(color),
            -173840 <= score <= 173840,
    {
        let terms = Evaluation::terms(board);
        let score: i32 = terms.material + terms.psqt + terms.king_safety + terms.pawn_structure;
        if color == Color::Black {
            -score
        } else {
            score
        }
    }

    /// The material of one side.
    pub fn evaluate_material(board: &Board, color: Color) -> (score: i32)
        ensures
            score == board@.material(color),
    {
        side_material(board, color)
    }

    /// The pawn structure of one side.
    pub fn evaluate_pawn_structure(board: &Board, color: Color) -> (score: i32)
        ensures
            score == board@.pawn_structure(color),
    {
        side_pawn_structure(board, color)
    }

    /// The king safety of one side.
    pub fn evaluate_king_safety(board: &Board, color: Color) -> (score: i32)
        ensures
            score == board@.king_safety(color),
    {
        side_king_safety(board, color)
    }
}

impl Default for Evaluation {
    fn default() -> (evaluation: Evaluation)
        ensures
            evaluation == (Evaluation { material: 0, psqt: 0, king_safety: 0, pawn_structure: 0 }),
    {
        Evaluation::new()
    }
}

} // verus!
