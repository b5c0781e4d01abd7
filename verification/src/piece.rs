//! Piece kinds and the two sides.

use vstd::prelude::*;

verus! {

/// The six kinds of chess piece, in bitboard order.
#[derive(Copy, Clone, Debug, PartialEq, Eq, Hash, Structural)]
pub enum Piece {
    Pawn,
    Knight,
    Bishop,
    Rook,
    Queen,
    King,
}

/// The two sides.
#[derive(Copy, Clone, Debug, PartialEq, Eq, Hash, Structural)]
pub enum Color {
    White,
    Black,
}

impl Piece {
    /// Position of the kind in bitboard order: pawn 0 up to king 5.
    pub open spec fn ordinal(self) -> nat {
        match self {
            Piece::Pawn => 0,
            Piece::Knight => 1,
            Piece::Bishop => 2,
            Piece::Rook => 3,
            Piece::Queen => 4,
            Piece::King => 5,
        }
    }

    /// The kind at position `value` of the bitboard order, if there is one.
    pub open spec fn of_ordinal(value: nat) -> Option<Piece> {
        if value == 0 {
            Some(Piece::Pawn)
        } else if value == 1 {
            Some(Piece::Knight)
        } else if value == 2 {
            Some(Piece::Bishop)
        } else if value == 3 {
            Some(Piece::Rook)
        } else if value == 4 {
            Some(Piece::Queen)
        } else if value == 5 {
            Some(Piece::King)
        } else {
            None
        }
    }

    /// The kind that a letter of algebraic notation stands for, in either
    /// case.
    pub open spec fn of_letter(c: char) -> Option<Piece> {
        if c == 'P' || c == 'p' {
            Some(Piece::Pawn)
        } else if c == 'N' || c == 'n' {
            Some(Piece::Knight)
        } else if c == 'B' || c == 'b' {
            Some(Piece::Bishop)
        } else if c == 'R' || c == 'r' {
            Some(Piece::Rook)
        } else if c == 'Q' || c == 'q' {
            Some(Piece::Queen)
        } else if c == 'K' || c == 'k' {
            Some(Piece::King)
        } else {
            None
        }
    }

    /// Position of the kind in bitboard order.
    pub fn to_index(self) -> (index: usize)
        ensures
            index == self.ordinal(),
            index < 6,
    {
        match self {
            Piece::Pawn => 0,
            Piece::Knight => 1,
            Piece::Bishop => 2,
            Piece::Rook => 3,
            Piece::Queen => 4,
            Piece::King => 5,
        }
    }

    /// The kind with ordinal `value`; `None` for 6 and above.
    pub fn from_u8(value: u8) -> (piece: Option<Piece>)
        ensures
            piece == Piece::of_ordinal(value as nat),
            value < 6 ==> piece is Some && piece->0.ordinal() == value,
            value >= 6 ==> piece is None,
    {
        match value {
            0 => Some(Piece::Pawn),
            1 => Some(Piece::Knight),
            2 => Some(Piece::Bishop),
            3 => Some(Piece::Rook),
            4 => Some(Piece::Queen),
            5 => Some(Piece::King),
            _ => None,
        }
    }

    /// The kind that the letter `c` stands for, upper or lower case; `None`
    /// for any other character.
    pub fn from_char(c: char) -> (piece: Option<Piece>)
        ensures
            piece == Piece::of_letter(c),
    {
        if c == 'P' || c == 'p' {
            Some(Piece::Pawn)
        } else if c == 'N' || c == 'n' {
            Some(Piece::Knight)
        } else if c == 'B' || c == 'b' {
            Some(Piece::Bishop)
        } else if c == 'R' || c == 'r' {
            Some(Piece::Rook)
        } else if c == 'Q' || c == 'q' {
            Some(Piece::Queen)
        } else if c == 'K' || c == 'k' {
            Some(Piece::King)
        } else {
            None
        }
    }
}

impl Color {
    /// 0 for White, 1 for Black.
    pub open spec fn ordinal(self) -> nat {
        match self {
            Color::White => 0,
            Color::Black => 1,
        }
    }

    /// The other side.
    pub open spec fn other(self) -> Color {
        match self {
            Color::White => Color::Black,
            Color::Black => Color::White,
        }
    }

    /// The other side.
    pub fn opponent(self) -> (other: Color)
        ensures
            other == self.other(),
            other != self,
            other.other() == self,
    {
        match self {
            Color::White => Color::Black,
            Color::Black => Color::White,
        }
    }

    /// 0 for White, 1 for Black.
    pub fn to_index(self) -> (index: usize)
        ensures
            index == self.ordinal(),
            index < 2,
    {
        match self {
            Color::White => 0,
            Color::Black => 1,
        }
    }

    /// White for 0, Black for 1, `None` for anything else.
    pub fn from_u8(value: u8) -> (color: Option<Color>)
        ensures
            value == 0 ==> color == Some(Color::White),
            value == 1 ==> color == Some(Color::Black),
            value >= 2 ==> color is None,
    {
        match value {
            0 => Some(Color::White),
            1 => Some(Color::Black),
            _ => None,
        }
    }
}

} // verus!
