//! Static evaluation: a score for a position without looking ahead.

pub mod bounds;
pub mod evaluation;
pub mod king_safety;
pub mod material;
pub mod pawn_structure;
pub mod psqt;
