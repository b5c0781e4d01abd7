//! Moves and squares as a player types them: `e2e4`.

use crate::square::{named_index, Square};
use vstd::prelude::*;
use vstd::string::*;

verus! {

/// Whether a byte is a letter or a digit.
pub open spec fn is_alphanumeric(byte: u8) -> bool {
    (48 <= byte <= 57) || (65 <= byte <= 90) || (97 <= byte <= 122)
}

/// A byte in lower case.
pub open spec fn lowered(byte: u8) -> u8 {
    if 65 <= byte <= 90 {
        (byte + 32) as u8
    } else {
        byte
    }
}

/// The letters and digits among the first `count` bytes, in lower case.
pub open spec fn normalized(bytes: Seq<u8>, count: nat) -> Seq<u8>
    decreases count,
{
    if count == 0 || count > bytes.len() {
        Seq::empty()
    } else {
        let before = normalized(bytes, (count - 1) as nat);
        if is_alphanumeric(bytes[count - 1]) {
            before.push(lowered(bytes[count - 1]))
        } else {
            before
        }
    }
}

/// The square that a text of two bytes names.
pub open spec fn square_named(bytes: Seq<u8>) -> Option<Square> {
    if bytes.len() == 2 {
        match named_index(bytes[0], bytes[1]) {
            Some(index) => Some(Square::at(index)),
            None => None,
        }
    } else {
        None
    }
}

/// The move that a text means: its letters and digits, in lower case, are
/// four, and name two squares.
pub open spec fn move_named(bytes: Seq<u8>) -> Option<(Square, Square)> {
    let text = normalized(bytes, bytes.len());
    if text.len() != 4 {
        None
    } else {
        match (named_index(text[0], text[1]), named_index(text[2], text[3])) {
            (Some(from), Some(to)) => Some((Square::at(from), Square::at(to))),
            _ => None,
        }
    }
}

/// The square that a text names: a file letter from `a` to `h` and a rank
/// digit from `1` to `8`; `None` for any other text.
pub fn parse_square(input: &str) -> (square: Option<Square>)
    ensures
        square == square_named(input.spec_bytes()),
{
    let bytes = input.as_bytes_vec();
    if bytes.len() != 2 {
        return None;
    }
    Square::from_codes(bytes[0], bytes[1])
}

/// The move that a text such as `e2e4` or `E2-E4` means: what is not a
/// letter or a digit is passed over, and upper case is read as lower;
/// `None` unless two squares are left.
pub fn parse_move(input: &str) -> (parsed: Option<(Square, Square)>)
    ensures
        parsed == move_named(input.spec_bytes()),
{
    let bytes = input.as_bytes_vec();
    let mut text: Vec<u8> = Vec::new();
    let mut i: usize = 0;
    while i < bytes.len()
        invariant
            i <= bytes@.len(),
            text@ == normalized(bytes@, i as nat),
        decreases bytes@.len() - i,
    {
        let byte = bytes[i];
        if (48 <= byte && byte <= 57) || (97 <= byte && byte <= 122) {
            text.push(byte);
        } else if 65 <= byte && byte <= 90 {
            text.push(byte + 32);
        }
        i += 1;
    }
    if text.len() != 4 {
        return None;
    }
    let source = Square::from_codes(text[0], text[1]);
    let destination = Square::from_codes(text[2], text[3]);
    match (source, destination) {
        (Some(source_square), Some(destination_square)) => Some(
            (source_square, destination_square),
        ),
        _ => None,
    }
}

} // verus!
