//! The sixty-four squares of the board.
//!
//! Squares are numbered rank by rank from White's side: `A1` is 0, `H1` is 7,
//! `A2` is 8, and `H8` is 63. The file of a square is its index modulo 8 and
//! its rank the index divided by 8, both counted from zero.

use crate::error::ChessError;
use vstd::prelude::*;
use vstd::string::*;

verus! {

/// A square of the board, named by file letter and rank digit.
#[derive(Copy, Clone, Debug, PartialEq, Eq, Hash, Structural)]
pub enum Square {
    A1, B1, C1, D1, E1, F1, G1, H1,
    A2, B2, C2, D2, E2, F2, G2, H2,
    A3, B3, C3, D3, E3, F3, G3, H3,
    A4, B4, C4, D4, E4, F4, G4, H4,
    A5, B5, C5, D5, E5, F5, G5, H5,
    A6, B6, C6, D6, E6, F6, G6, H6,
    A7, B7, C7, D7, E7, F7, G7, H7,
    A8, B8, C8, D8, E8, F8, G8, H8,
}

/// Code of the letter `a`, the first file.
pub const FILE_A_CODE: u8 = 97;

/// Code of the digit `1`, the first rank.
pub const RANK_1_CODE: u8 = 49;

/// The square that the two bytes `file_code`, `rank_code` name (`a`..`h`
/// followed by `1`..`8`), as an index; `None` if either is out of range.
pub open spec fn named_index(file_code: u8, rank_code: u8) -> Option<nat> {
    if 97 <= file_code <= 104 && 49 <= rank_code <= 56 {
        Some(((rank_code - 49) * 8 + (file_code - 97)) as nat)
    } else {
        None
    }
}

impl Square {
    /// The index of the square, 0 to 63.
    pub open spec fn index(self) -> nat {
        match self {
            Square::A1 => 0,
            Square::B1 => 1,
            Square::C1 => 2,
            Square::D1 => 3,
            Square::E1 => 4,
            Square::F1 => 5,
            Square::G1 => 6,
            Square::H1 => 7,
            Square::A2 => 8,
            Square::B2 => 9,
            Square::C2 => 10,
            Square::D2 => 11,
            Square::E2 => 12,
            Square::F2 => 13,
            Square::G2 => 14,
            Square::H2 => 15,
            Square::A3 => 16,
            Square::B3 => 17,
            Square::C3 => 18,
            Square::D3 => 19,
            Square::E3 => 20,
            Square::F3 => 21,
            Square::G3 => 22,
            Square::H3 => 23,
            Square::A4 => 24,
            Square::B4 => 25,
            Square::C4 => 26,
            Square::D4 => 27,
            Square::E4 => 28,
            Square::F4 => 29,
            Square::G4 => 30,
            Square::H4 => 31,
            Square::A5 => 32,
            Square::B5 => 33,
            Square::C5 => 34,
            Square::D5 => 35,
            Square::E5 => 36,
            Square::F5 => 37,
            Square::G5 => 38,
            Square::H5 => 39,
            Square::A6 => 40,
            Square::B6 => 41,
            Square::C6 => 42,
            Square::D6 => 43,
            Square::E6 => 44,
            Square::F6 => 45,
            Square::G6 => 46,
            Square::H6 => 47,
            Square::A7 => 48,
            Square::B7 => 49,
            Square::C7 => 50,
            Square::D7 => 51,
            Square::E7 => 52,
            Square::F7 => 53,
            Square::G7 => 54,
            Square::H7 => 55,
            Square::A8 => 56,
            Square::B8 => 57,
            Square::C8 => 58,
            Square::D8 => 59,
            Square::E8 => 60,
            Square::F8 => 61,
            Square::G8 => 62,
            Square::H8 => 63,
        }
    }

    /// The square with index `index`; defined for indices below 64.
    pub open spec fn at(index: nat) -> Square {
        if index == 0 {
            Square::A1
        } else if index == 1 {
            Square::B1
        } else if index == 2 {
            Square::C1
        } else if index == 3 {
            Square::D1
        } else if index == 4 {
            Square::E1
        } else if index == 5 {
            Square::F1
        } else if index == 6 {
            Square::G1
        } else if index == 7 {
            Square::H1
        } else if index == 8 {
            Square::A2
        } else if index == 9 {
            Square::B2
        } else if index == 10 {
            Square::C2
        } else if index == 11 {
            Square::D2
        } else if index == 12 {
            Square::E2
        } else if index == 13 {
            Square::F2
        } else if index == 14 {
            Square::G2
        } else if index == 15 {
            Square::H2
        } else if index == 16 {
            Square::A3
        } else if index == 17 {
            Square::B3
        } else if index == 18 {
            Square::C3
        } else if index == 19 {
            Square::D3
        } else if index == 20 {
            Square::E3
        } else if index == 21 {
            Square::F3
        } else if index == 22 {
            Square::G3
        } else if index == 23 {
            Square::H3
        } else if index == 24 {
            Square::A4
        } else if index == 25 {
            Square::B4
        } else if index == 26 {
            Square::C4
        } else if index == 27 {
            Square::D4
        } else if index == 28 {
            Square::E4
        } else if index == 29 {
            Square::F4
        } else if index == 30 {
            Square::G4
        } else if index == 31 {
            Square::H4
        } else if index == 32 {
            Square::A5
        } else if index == 33 {
            Square::B5
        } else if index == 34 {
            Square::C5
        } else if index == 35 {
            Square::D5
        } else if index == 36 {
            Square::E5
        } else if index == 37 {
            Square::F5
        } else if index == 38 {
            Square::G5
        } else if index == 39 {
            Square::H5
        } else if index == 40 {
            Square::A6
        } else if index == 41 {
            Square::B6
        } else if index == 42 {
            Square::C6
        } else if index == 43 {
            Square::D6
        } else if index == 44 {
            Square::E6
        } else if index == 45 {
            Square::F6
        } else if index == 46 {
            Square::G6
        } else if index == 47 {
            Square::H6
        } else if index == 48 {
            Square::A7
        } else if index == 49 {
            Square::B7
        } else if index == 50 {
            Square::C7
        } else if index == 51 {
            Square::D7
        } else if index == 52 {
            Square::E7
        } else if index == 53 {
            Square::F7
        } else if index == 54 {
            Square::G7
        } else if index == 55 {
            Square::H7
        } else if index == 56 {
            Square::A8
        } else if index == 57 {
            Square::B8
        } else if index == 58 {
            Square::C8
        } else if index == 59 {
            Square::D8
        } else if index == 60 {
            Square::E8
        } else if index == 61 {
            Square::F8
        } else if index == 62 {
            Square::G8
        } else {
            Square::H8
        }
    }

    /// File of the square, 0 for the a-file to 7 for the h-file.
    pub open spec fn file_index(self) -> nat {
        self.index() % 8
    }

    /// Rank of the square, 0 for the first rank to 7 for the eighth.
    pub open spec fn rank_index(self) -> nat {
        self.index() / 8
    }

    /// Indices lie below 64, and `at` inverts `index`.
    pub proof fn lemma_index_at(self)
        ensures
            self.index() < 64,
            Square::at(self.index()) == self,
    {
    }

    /// `index` inverts `at` on the indices of the board.
    pub proof fn lemma_at_index(index: nat)
        requires
            index < 64,
        ensures
            Square::at(index).index() == index,
    {
    }

    /// The square on rank `rank` and file `file`, both counted from zero.
    pub fn new(rank: usize, file: usize) -> (square: Square)
        requires
            rank < 8,
            file < 8,
        ensures
            square.index() == rank * 8 + file,
            square == Square::at((rank * 8 + file) as nat),
    {
        Square::from_index(rank * 8 + file)
    }

    /// The index of the square.
    pub fn to_index(self) -> (index: usize)
        ensures
            index == self.index(),
            index < 64,
    {
        match self {
            Square::A1 => 0,
            Square::B1 => 1,
            Square::C1 => 2,
            Square::D1 => 3,
            Square::E1 => 4,
            Square::F1 => 5,
            Square::G1 => 6,
            Square::H1 => 7,
            Square::A2 => 8,
            Square::B2 => 9,
            Square::C2 => 10,
            Square::D2 => 11,
            Square::E2 => 12,
            Square::F2 => 13,
            Square::G2 => 14,
            Square::H2 => 15,
            Square::A3 => 16,
            Square::B3 => 17,
            Square::C3 => 18,
            Square::D3 => 19,
            Square::E3 => 20,
            Square::F3 => 21,
            Square::G3 => 22,
            Square::H3 => 23,
            Square::A4 => 24,
            Square::B4 => 25,
            Square::C4 => 26,
            Square::D4 => 27,
            Square::E4 => 28,
            Square::F4 => 29,
            Square::G4 => 30,
            Square::H4 => 31,
            Square::A5 => 32,
            Square::B5 => 33,
            Square::C5 => 34,
            Square::D5 => 35,
            Square::E5 => 36,
            Square::F5 => 37,
            Square::G5 => 38,
            Square::H5 => 39,
            Square::A6 => 40,
            Square::B6 => 41,
            Square::C6 => 42,
            Square::D6 => 43,
            Square::E6 => 44,
            Square::F6 => 45,
            Square::G6 => 46,
            Square::H6 => 47,
            Square::A7 => 48,
            Square::B7 => 49,
            Square::C7 => 50,
            Square::D7 => 51,
            Square::E7 => 52,
            Square::F7 => 53,
            Square::G7 => 54,
            Square::H7 => 55,
            Square::A8 => 56,
            Square::B8 => 57,
            Square::C8 => 58,
            Square::D8 => 59,
            Square::E8 => 60,
            Square::F8 => 61,
            Square::G8 => 62,
            Square::H8 => 63,
        }
    }

    /// The square with the given index.
    pub fn from_index(index: usize) -> (square: Square)
        requires
            index < 64,
        ensures
            square == Square::at(index as nat),
            square.index() == index,
    {
        match index {
            0 => Square::A1,
            1 => Square::B1,
            2 => Square::C1,
            3 => Square::D1,
            4 => Square::E1,
            5 => Square::F1,
            6 => Square::G1,
            7 => Square::H1,
            8 => Square::A2,
            9 => Square::B2,
            10 => Square::C2,
            11 => Square::D2,
            12 => Square::E2,
            13 => Square::F2,
            14 => Square::G2,
            15 => Square::H2,
            16 => Square::A3,
            17 => Square::B3,
            18 => Square::C3,
            19 => Square::D3,
            20 => Square::E3,
            21 => Square::F3,
            22 => Square::G3,
            23 => Square::H3,
            24 => Square::A4,
            25 => Square::B4,
            26 => Square::C4,
            27 => Square::D4,
            28 => Square::E4,
            29 => Square::F4,
            30 => Square::G4,
            31 => Square::H4,
            32 => Square::A5,
            33 => Square::B5,
            34 => Square::C5,
            35 => Square::D5,
            36 => Square::E5,
            37 => Square::F5,
            38 => Square::G5,
            39 => Square::H5,
            40 => Square::A6,
            41 => Square::B6,
            42 => Square::C6,
            43 => Square::D6,
            44 => Square::E6,
            45 => Square::F6,
            46 => Square::G6,
            47 => Square::H6,
            48 => Square::A7,
            49 => Square::B7,
            50 => Square::C7,
            51 => Square::D7,
            52 => Square::E7,
            53 => Square::F7,
            54 => Square::G7,
            55 => Square::H7,
            56 => Square::A8,
            57 => Square::B8,
            58 => Square::C8,
            59 => Square::D8,
            60 => Square::E8,
            61 => Square::F8,
            62 => Square::G8,
            _ => Square::H8,
        }
    }

    /// The square with the given index, or `InvalidSquareIndex` for an index
    /// of 64 or more.
    pub fn try_from_index(index: usize) -> (square: Result<Square, ChessError>)
        ensures
            index < 64 ==> square == Ok::<Square, ChessError>(Square::at(index as nat)),
            index >= 64 ==> square == Err::<Square, ChessError>(ChessError::InvalidSquareIndex),
    {
        if index < 64 {
            Ok(Square::from_index(index))
        } else {
            Err(ChessError::InvalidSquareIndex)
        }
    }

    /// The square named by a file code and a rank code, if both are in range.
    pub fn from_codes(file_code: u8, rank_code: u8) -> (square: Option<Square>)
        ensures
            match named_index(file_code, rank_code) {
                Some(index) => square == Some(Square::at(index)),
                None => square is None,
            },
    {
        if 97 <= file_code && file_code <= 104 && 49 <= rank_code && rank_code <= 56 {
            let rank: usize = (rank_code - 49) as usize;
            let file: usize = (file_code - 97) as usize;
            Some(Square::new(rank, file))
        } else {
            None
        }
    }

    /// Reads a square name such as `e4`: exactly two bytes, a file letter
    /// `a` to `h` and a rank digit `1` to `8`. Anything else is
    /// `InvalidSquareIndex`.
    pub fn from_str(s: &str) -> (square: Result<Square, ChessError>)
        ensures
            match square {
                Ok(sq) => s.spec_bytes().len() == 2 && named_index(
                    s.spec_bytes()[0],
                    s.spec_bytes()[1],
                ) == Some(sq.index()),
                Err(e) => e == ChessError::InvalidSquareIndex && (s.spec_bytes().len() != 2
                    || named_index(s.spec_bytes()[0], s.spec_bytes()[1]) is None),
            },
    {
        let bytes = s.as_bytes_vec();
        if bytes.len() != 2 {
            return Err(ChessError::InvalidSquareIndex);
        }
        match Square::from_codes(bytes[0], bytes[1]) {
            Some(sq) => Ok(sq),
            None => Err(ChessError::InvalidSquareIndex),
        }
    }

    /// Rank of the square, counted from zero.
    pub fn rank_usize(self) -> (rank: usize)
        ensures
            rank == self.rank_index(),
            rank < 8,
    {
        self.to_index() / 8
    }

    /// File of the square, counted from zero.
    pub fn file_usize(self) -> (file: usize)
        ensures
            file == self.file_index(),
            file < 8,
    {
        self.to_index() % 8
    }

    /// File of the square as its letter code, `a` to `h`.
    pub fn file(&self) -> (code: u8)
        ensures
            code == 97 + self.file_index(),
    {
        97u8 + (self.to_index() % 8) as u8
    }

    /// Rank of the square as its digit code, `1` to `8`.
    pub fn rank_ascii(&self) -> (code: u8)
        ensures
            code == 49 + self.rank_index(),
    {
        49u8 + (self.to_index() / 8) as u8
    }

    /// Whether the square fits a disambiguation hint of algebraic notation,
    /// given as bytes.
    pub open spec fn fits_hint(self, hint: Seq<u8>) -> bool {
        if hint.len() == 0 {
            true
        } else if hint.len() == 1 {
            hint[0] == 97 + self.file_index() || hint[0] == 49 + self.rank_index()
        } else if hint.len() == 2 {
            hint[0] == 97 + self.file_index() && hint[1] == 49 + self.rank_index()
        } else {
            false
        }
    }

    /// Whether the square fits a disambiguation hint given as bytes.
    pub fn fits(&self, hint: &Vec<u8>) -> (fits: bool)
        ensures
            fits == self.fits_hint(hint@),
    {
        if hint.len() == 0 {
            true
        } else if hint.len() == 1 {
            self.file() == hint[0] || self.rank_ascii() == hint[0]
        } else if hint.len() == 2 {
            self.file() == hint[0] && self.rank_ascii() == hint[1]
        } else {
            false
        }
    }

    /// Whether the square fits a disambiguation hint: the empty hint fits
    /// every square, a one-byte hint names the file or the rank, a two-byte
    /// hint names both, and a longer one fits nothing.
    pub fn matches_hint(&self, hint: &str) -> (fits: bool)
        ensures
            fits == self.fits_hint(hint.spec_bytes()),
    {
        let bytes = hint.as_bytes_vec();
        self.fits(&bytes)
    }
}

} // verus!
