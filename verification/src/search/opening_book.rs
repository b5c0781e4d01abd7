//! The opening book: moves prepared beforehand, by position key.

use crate::error::ChessError;
use crate::search::polyglot_book::{
    be_u16, be_u64, move_source, move_target, PolyglotEntry,
};
use crate::square::Square;
use vstd::prelude::*;

verus! {

/// The text that `String::from_utf8_lossy` of the standard library makes of
/// bytes: the text they encode in UTF-8, with a replacement character for
/// what encodes nothing.
pub uninterp spec fn lossy_text(bytes: Seq<u8>) -> Seq<char>;

/// `String::from_utf8_lossy`, which turns bytes into text and depends on
/// the bytes alone.
#[verifier::external_body]
fn text_of_bytes(bytes: &[u8]) -> (text: String)
    ensures
        text@ == lossy_text(bytes@),
{
    String::from_utf8_lossy(bytes).into_owned()
}

/// One line of the book: a move for a position, and the note that comes
/// with it.
#[derive(Clone, Debug)]
pub struct BookLine {
    pub key: u64,
    pub book_move: u16,
    pub note: String,
}

/// The lines of an opening book, in the order of the book.
#[derive(Clone, Debug)]
pub struct OpeningBook {
    pub lines: Vec<BookLine>,
}

/// What a book line says, as the contracts see it.
pub struct LineView {
    pub key: u64,
    pub book_move: u16,
    pub note: Seq<char>,
}

impl View for BookLine {
    type V = LineView;

    open spec fn view(&self) -> LineView {
        LineView { key: self.key, book_move: self.book_move, note: self.note@ }
    }
}

/// The line that the sixteen bytes from `at` on write: the key, the move,
/// and the last six bytes as the note.
pub open spec fn line_at(bytes: Seq<u8>, at: int) -> LineView {
    LineView {
        key: be_u64(bytes, at),
        book_move: be_u16(bytes, at + 8),
        note: lossy_text(bytes.subrange(at + 10, at + 16)),
    }
}

/// The first of `lines`, from the `next` on, for the position `key`.
pub open spec fn first_line(lines: Seq<BookLine>, key: u64, next: nat) -> Option<BookLine>
    decreases lines.len() - next,
{
    if next >= lines.len() {
        None
    } else if lines[next as int].key == key {
        Some(lines[next as int])
    } else {
        first_line(lines, key, next + 1)
    }
}

impl OpeningBook {
    /// A book without lines.
    pub fn empty() -> (book: OpeningBook)
        ensures
            book.lines@.len() == 0,
    {
        OpeningBook { lines: Vec::new() }
    }

    /// The book that `bytes` write, sixteen bytes a line.
    /// `BookLoadFailure` if the bytes end inside a line.
    pub fn from_bytes(bytes: &[u8]) -> (book: Result<OpeningBook, ChessError>)
        ensures
            bytes@.len() % 16 == 0 ==> book is Ok && book->Ok_0.lines@.len() == bytes@.len() / 16
                && forall|k: int|
                0 <= k < bytes@.len() / 16 ==> (#[trigger] book->Ok_0.lines@[k])@ == line_at(
                    bytes@,
                    k * 16,
                ),
            bytes@.len() % 16 != 0 ==> book is Err && book->Err_0 == ChessError::BookLoadFailure,
    {
        if bytes.len() % 16 != 0 {
            return Err(ChessError::BookLoadFailure);
        }
        let count = bytes.len() / 16;
        let mut lines: Vec<BookLine> = Vec::new();
        let mut i: usize = 0;
        while i < count
            invariant
                i <= count,
                count * 16 == bytes@.len(),
                bytes@.len() <= usize::MAX,
                lines@.len() == i,
                forall|k: int| 0 <= k < i ==> (#[trigger] lines@[k])@ == line_at(bytes@, k * 16),
            decreases count - i,
        {
            let at: usize = i * 16;
            let entry = PolyglotEntry::from_bytes(slice_subrange(bytes, at, at + 16));
            let note = text_of_bytes(slice_subrange(bytes, at + 10, at + 16));
            proof {
                let record = bytes@.subrange(at as int, at + 16);
                assert(record[0] == bytes@[at as int]);
                assert(record[1] == bytes@[at + 1]);
                assert(record[2] == bytes@[at + 2]);
                assert(record[3] == bytes@[at + 3]);
                assert(record[4] == bytes@[at + 4]);
                assert(record[5] == bytes@[at + 5]);
                assert(record[6] == bytes@[at + 6]);
                assert(record[7] == bytes@[at + 7]);
                assert(record[8] == bytes@[at + 8]);
                assert(record[9] == bytes@[at + 9]);
            }
            lines.push(BookLine { key: entry.key, book_move: entry.move_, note });
            i += 1;
        }
        Ok(OpeningBook { lines })
    }

    /// The first line of the book for the position `position_hash`.
    fn find_line(&self, position_hash: u64) -> (line: Option<usize>)
        ensures
            match first_line(self.lines@, position_hash, 0) {
                Some(found) => line is Some && line->0 < self.lines@.len() && self.lines@[line->0 as int]
                    == found,
                None => line is None,
            },
    {
        let mut i: usize = 0;
        while i < self.lines.len()
            invariant
                i <= self.lines@.len(),
                first_line(self.lines@, position_hash, i as nat) == first_line(
                    self.lines@,
                    position_hash,
                    0,
                ),
            decreases self.lines@.len() - i,
        {
            if self.lines[i].key == position_hash {
                return Some(i);
            }
            i += 1;
        }
        None
    }

    /// The move that the book has for the position `position_hash`, and
    /// its note: those of the first line for the position.
    pub fn get_move(&self, position_hash: u64) -> (found: Option<(u16, String)>)
        ensures
            match first_line(self.lines@, position_hash, 0) {
                Some(line) => found matches Some(pair) && pair.0 == line.book_move && pair.1@
                    == line.note@,
                None => found is None,
            },
    {
        match self.find_line(position_hash) {
            Some(i) => Some((self.lines[i].book_move, self.lines[i].note.clone())),
            None => None,
        }
    }

    /// The note of the first line that the book has for the position
    /// `position_hash`.
    pub fn get_opening_name(&self, position_hash: u64) -> (name: Option<String>)
        ensures
            match first_line(self.lines@, position_hash, 0) {
                Some(line) => name is Some && name->0@ == line.note@,
                None => name is None,
            },
    {
        match self.find_line(position_hash) {
            Some(i) => Some(self.lines[i].note.clone()),
            None => None,
        }
    }

    /// The squares of a book move: the source from bits 6 to 11, the target
    /// from bits 0 to 5.
    pub fn polyglot_move_to_squares(polyglot_move: u16) -> (squares: (Square, Square))
        ensures
            squares.0.index() == move_source(polyglot_move),
            squares.1.index() == move_target(polyglot_move),
    {
        PolyglotEntry::polyglot_move_to_squares(polyglot_move)
    }
}

/// The part of a slice from `start` up to, not including, `end`.
fn slice_subrange(bytes: &[u8], start: usize, end: usize) -> (part: &[u8])
    requires
        start <= end <= bytes@.len(),
    ensures
        part@ == bytes@.subrange(start as int, end as int),
{
    vstd::slice::slice_subrange(bytes, start, end)
}

} // verus!
