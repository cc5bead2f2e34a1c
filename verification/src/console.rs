//! Arithmetic for the console-API backend: translation between the
//! public 1-based coordinates and the console's 0-based ones, the cell
//! count a clear must fill, and the target of a relative move.
//!
//! The console itself is driven through structured native calls that
//! only an interactive console device answers; those calls live outside
//! the library. Everything they need computed is here.

use vstd::prelude::*;
use crate::Pos;

verus! {

/// The 0-based console coordinates of a position, or nothing when an
/// axis falls outside what the console's 16-bit coordinates can address.
pub open spec fn spec_console_target(p: Pos) -> Option<(i16, i16)> {
    if 1 <= p.col <= 32768 && 1 <= p.row <= 32768 {
        Some((((p.col - 1) as i16), ((p.row - 1) as i16)))
    } else {
        None
    }
}

/// Translates a public position into console coordinates.
pub fn console_target(p: Pos) -> (r: Option<(i16, i16)>)
    ensures
        r == spec_console_target(p),
{
    if 1 <= p.col && p.col <= 32768 && 1 <= p.row && p.row <= 32768 {
        Some((((p.col - 1) as i16), ((p.row - 1) as i16)))
    } else {
        None
    }
}

/// Translates console cursor coordinates back into a public position.
pub fn pos_from_console(x: i16, y: i16) -> (p: Pos)
    requires
        0 <= x,
        0 <= y,
    ensures
        p.col == x + 1,
        p.row == y + 1,
        p.valid(),
{
    Pos { col: x as i32 + 1, row: y as i32 + 1 }
}

/// Round trip through the console's coordinate system: every position
/// the console can address translates to 0-based coordinates and back
/// to itself, so setting the cursor and reading it back agree.
pub proof fn lemma_console_round_trip(p: Pos)
    requires
        p.valid(),
        p.col <= 32768,
        p.row <= 32768,
    ensures
        ({
            &&& spec_console_target(p) matches Some(xy)
            &&& xy.0 + 1 == p.col
            &&& xy.1 + 1 == p.row
        }),
{
}

/// The other direction: coordinates the console reports translate to a
/// position that translates back to the same coordinates.
pub proof fn lemma_console_round_trip_back(x: i16, y: i16)
    requires
        0 <= x,
        0 <= y,
    ensures
        (spec_console_target(Pos { col: (x + 1) as i32, row: (y + 1) as i32 }) == Some((x, y))),
{
}

/// The number of cells a clear must fill: the buffer's full area. The
/// product of two 16-bit dimensions always fits the 32-bit count the
/// fill calls take.
pub fn cell_count(width: u16, height: u16) -> (n: u32)
    ensures
        n == width * height,
{
    proof {
        assert(width * height <= 0xFFFFu32 * 0xFFFFu32) by (nonlinear_arith)
            requires
                width <= 0xFFFFu32,
                height <= 0xFFFFu32,
        ;
    }
    (width as u32) * (height as u32)
}

/// Where a relative move by (dx, dy) lands from `current`, or nothing
/// when the target leaves the addressable plane (an axis below 1) or
/// the position type.
pub open spec fn spec_relative_target(current: Pos, dx: int, dy: int) -> Option<Pos> {
    if 1 <= current.col + dx <= i32::MAX && 1 <= current.row + dy <= i32::MAX {
        Some(Pos { col: (current.col + dx) as i32, row: (current.row + dy) as i32 })
    } else {
        None
    }
}

/// Computes the absolute target of a relative move, so that moving by an
/// offset is exactly a query followed by an absolute move to the result.
pub fn relative_target(current: Pos, dx: i32, dy: i32) -> (r: Option<Pos>)
    ensures
        r == spec_relative_target(current, dx as int, dy as int),
{
    let col: i64 = current.col as i64 + dx as i64;
    let row: i64 = current.row as i64 + dy as i64;
    if 1 <= col && col <= i32::MAX as i64 && 1 <= row && row <= i32::MAX as i64 {
        Some(Pos { col: col as i32, row: row as i32 })
    } else {
        None
    }
}

} // verus!
