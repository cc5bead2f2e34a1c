//! Cursor control for character terminals.
//!
//! The library models the two mechanisms a terminal offers for moving,
//! querying and clearing the text cursor: a byte-oriented escape-sequence
//! protocol (encoding commands, parsing the position-report reply, and the
//! raw-mode session that a position query requires) and a structured
//! console API (coordinate translation and buffer arithmetic). Everything
//! here is pure logic on plain values; the thin shell that actually talks
//! to a terminal lives outside the library.

use vstd::prelude::*;

pub mod console;
pub mod query;
pub mod reply;
pub mod wire;

verus! {

/// A cursor position. Both axes are 1-based, following terminal
/// conventions: the top-left cell is column 1, row 1.
#[derive(Clone, Copy, Debug, PartialEq, Eq, Structural)]
pub struct Pos {
    pub col: i32,
    pub row: i32,
}

impl Pos {
    /// A position a terminal can address: both coordinates at least 1.
    pub open spec fn valid(self) -> bool {
        1 <= self.col && 1 <= self.row
    }

    pub fn new(col: i32, row: i32) -> (p: Pos)
        ensures
            p.col == col,
            p.row == row,
    {
        Pos { col, row }
    }
}

/// Which expectation of the position-report grammar failed.
#[derive(Clone, Copy, Debug, PartialEq, Eq, Structural)]
pub enum ParseFault {
    /// The reply did not begin with the two-byte introducer `ESC` `[`.
    Introducer,
    /// The byte ending the row digits was not `;`.
    RowTerminator,
    /// The byte ending the column digits was not `R`.
    ColTerminator,
    /// A coordinate in the reply does not fit the position type.
    Overflow,
}

/// Everything a cursor operation can fail with.
#[derive(Clone, Copy, Debug, PartialEq, Eq, Structural)]
pub enum Error {
    /// A native console call failed, or the device cannot be addressed.
    PlatformSpecific,
    /// The position-report reply broke the expected grammar.
    ParseError(ParseFault),
    /// Reading or writing the underlying byte stream failed.
    IOError,
}

} // verus!
