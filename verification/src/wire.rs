//! The escape sequences the stream protocol writes: absolute movement,
//! full clear, and the position-query request. All of them are plain
//! ASCII byte strings; coordinates are rendered as decimal digits.

use vstd::prelude::*;
use crate::Pos;

verus! {

/// The decimal digit string of `n`, most significant digit first,
/// as ASCII bytes. `0` is rendered as the single byte `b'0'`.
pub open spec fn dec_digits(n: nat) -> Seq<u8>
    decreases n,
{
    if n < 10 {
        seq![(48 + n) as u8]
    } else {
        dec_digits(n / 10).push((48 + n % 10) as u8)
    }
}

/// Appends the decimal digit string of `n` to `out`.
fn push_decimal(n: u32, out: &mut Vec<u8>)
    ensures
        final(out)@ == old(out)@ + dec_digits(n as nat),
    decreases n,
{
    if n < 10 {
        out.push((48 + n) as u8);
    } else {
        push_decimal(n / 10, out);
        out.push((48 + n % 10) as u8);
        proof {
            assert(out@ =~= old(out)@ + dec_digits(n as nat));
        }
    }
}

/// The wire form of an absolute move to (col, row): `ESC [ <row> ; <col> H`.
/// The wire order is row first, then column: the transposition from the
/// public column-first contract happens exactly here.
pub open spec fn move_wire(col: nat, row: nat) -> Seq<u8> {
    seq![27u8, 91u8] + dec_digits(row) + seq![59u8] + dec_digits(col) + seq![72u8]
}

/// Encodes the absolute-move command for a position.
pub fn encode_move_to(p: Pos) -> (r: Vec<u8>)
    requires
        p.valid(),
    ensures
        r@ == move_wire(p.col as nat, p.row as nat),
{
    let mut out: Vec<u8> = Vec::new();
    out.push(27);
    out.push(91);
    push_decimal(p.row as u32, &mut out);
    out.push(59);
    push_decimal(p.col as u32, &mut out);
    out.push(72);
    proof {
        assert(out@ =~= move_wire(p.col as nat, p.row as nat));
    }
    out
}

/// The wire form of a full clear: `ESC c`, the terminal's own reset.
pub open spec fn clear_wire() -> Seq<u8> {
    seq![27u8, 99u8]
}

/// Encodes the clear command. The sequence is a constant: issuing it twice
/// writes the same bytes twice, so clearing is idempotent as far as this
/// library can observe.
pub fn encode_clear() -> (r: Vec<u8>)
    ensures
        r@ == clear_wire(),
{
    let mut out: Vec<u8> = Vec::new();
    out.push(27);
    out.push(99);
    proof {
        assert(out@ =~= clear_wire());
    }
    out
}

/// The wire form of the position-query request: `ESC [ 6 n`.
pub open spec fn query_wire() -> Seq<u8> {
    seq![27u8, 91u8, 54u8, 110u8]
}

/// Encodes the position-query request.
pub fn encode_query() -> (r: Vec<u8>)
    ensures
        r@ == query_wire(),
{
    let mut out: Vec<u8> = Vec::new();
    out.push(27);
    out.push(91);
    out.push(54);
    out.push(110);
    proof {
        assert(out@ =~= query_wire());
    }
    out
}

} // verus!
