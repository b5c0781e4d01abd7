//! The failures that the engine reports to its callers.

use vstd::prelude::*;

verus! {

/// Why an operation on external input, or on a position, could not be
/// carried out.
#[derive(Copy, Clone, Debug, PartialEq, Eq, Structural)]
pub enum ChessError {
    /// A position string with the wrong number of fields or a character that
    /// does not belong.
    InvalidPositionEncoding,
    /// A query or a move that starts on a square where no fitting piece stands.
    NoPieceAtSquare,
    /// A search on a position in which the mover has no legal move.
    NoLegalMove,
    /// Opening-book data that ends inside a record.
    BookLoadFailure,
    /// A square index of 64 or more, or a square name that is not a file
    /// letter followed by a rank digit.
    InvalidSquareIndex,
}

} // verus!
