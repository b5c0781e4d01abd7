//! Game-tree search: negamax with alpha-beta pruning, its quiescence
//! extension and pruning variants, and the transposition cache.

pub mod full_width;
pub mod iterative;
pub mod lmr;
pub mod mate;
pub mod negamax;
pub mod null_move;
pub mod opening_book;
pub mod polyglot_book;
pub mod transposition;
