//! A bitboard chess engine core: position representation and move
//! generation, static evaluation, and bounded game-tree search.

pub mod adaptive_engine;
pub mod arbiter;
pub mod bitboard;
pub mod board;
pub mod error;
pub mod eval;
pub mod notation;
pub mod piece;
pub mod play;
pub mod search;
pub mod square;

pub use adaptive_engine::AdaptiveEngine;
pub use arbiter::position_type::PositionType;
pub use arbiter::Arbiter;
pub use bitboard::{clear_bit, count_bits, get_lsb, is_bit_set, set_bit, Bitboard, FULL_BOARD};
pub use board::game_state::GameState;
pub use board::zobrist::Zobrist;
pub use board::Board;
pub use error::ChessError;
pub use eval::evaluation::Evaluation;
pub use piece::{Color, Piece};
pub use search::negamax::Search;
pub use search::opening_book::OpeningBook;
pub use search::transposition::{NodeType, TranspositionEntry, TranspositionTable};
pub use square::Square;
