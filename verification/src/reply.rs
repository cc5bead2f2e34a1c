//! Parser for the position-report reply `ESC [ <row> ; <col> R` that a
//! terminal writes to its input stream in answer to the query request.
//!
//! The parser is an explicit state machine fed one byte at a time, so the
//! caller can read exactly as many bytes as the frame contains and no
//! more. The grammar has three expectations in sequence: the two-byte
//! introducer, the row digits ended by `;`, and the column digits ended
//! by `R`. The introducer is judged only once both of its bytes are in,
//! so a mismatched reply consumes exactly the two introducer bytes. The
//! reply carries the row first; the parser hands the result back in the
//! public column-first order.

use vstd::prelude::*;
use crate::{Error, ParseFault, Pos};
use crate::wire::dec_digits;

verus! {

/// One state of the reply parser. `Done` and `Failed` are absorbing:
/// once reached, further bytes leave the state unchanged.
#[derive(Clone, Copy, Debug, PartialEq, Eq, Structural)]
pub enum ReplyParser {
    /// Nothing consumed yet; the next byte must be `ESC`.
    ExpectEsc,
    /// `ESC` was consumed; the next byte must be `[`.
    ExpectBracket,
    /// The first introducer byte was not `ESC`. The reply still owes its
    /// second byte, which is consumed before the parse fails: the
    /// introducer is read in full before it is judged.
    BadIntroducer,
    /// Accumulating the row digits.
    Row { acc: i32 },
    /// The row is complete; accumulating the column digits.
    Col { row: i32, acc: i32 },
    /// A complete reply was consumed.
    Done { col: i32, row: i32 },
    /// The reply broke the grammar at the recorded expectation.
    Failed { fault: ParseFault },
}

/// An ASCII decimal digit.
pub open spec fn is_digit(b: u8) -> bool {
    48 <= b <= 57
}

/// The numeric value of an ASCII decimal digit.
pub open spec fn digit_val(b: u8) -> int {
    b - 48
}

/// Can another digit be appended to the accumulator without leaving i32?
pub open spec fn can_grow(acc: i32, b: u8) -> bool {
    0 <= acc && acc <= (i32::MAX - digit_val(b)) / 10
}

/// The transition relation of the parser: the state after consuming one
/// byte. Digits accumulate as `acc * 10 + digit`; a digit that would push
/// the accumulator past `i32::MAX` fails with `Overflow`.
pub open spec fn spec_step(s: ReplyParser, b: u8) -> ReplyParser {
    match s {
        ReplyParser::ExpectEsc => if b == 27 {
            ReplyParser::ExpectBracket
        } else {
            ReplyParser::BadIntroducer
        },
        ReplyParser::ExpectBracket => if b == 91 {
            ReplyParser::Row { acc: 0 }
        } else {
            ReplyParser::Failed { fault: ParseFault::Introducer }
        },
        ReplyParser::BadIntroducer => ReplyParser::Failed { fault: ParseFault::Introducer },
        ReplyParser::Row { acc } => if is_digit(b) {
            if can_grow(acc, b) {
                ReplyParser::Row { acc: (acc * 10 + digit_val(b)) as i32 }
            } else {
                ReplyParser::Failed { fault: ParseFault::Overflow }
            }
        } else if b == 59 {
            ReplyParser::Col { row: acc, acc: 0 }
        } else {
            ReplyParser::Failed { fault: ParseFault::RowTerminator }
        },
        ReplyParser::Col { row, acc } => if is_digit(b) {
            if can_grow(acc, b) {
                ReplyParser::Col { row, acc: (acc * 10 + digit_val(b)) as i32 }
            } else {
                ReplyParser::Failed { fault: ParseFault::Overflow }
            }
        } else if b == 82 {
            ReplyParser::Done { col: acc, row }
        } else {
            ReplyParser::Failed { fault: ParseFault::ColTerminator }
        },
        ReplyParser::Done { .. } => s,
        ReplyParser::Failed { .. } => s,
    }
}

/// Feeds one byte to the parser.
pub fn step(s: ReplyParser, b: u8) -> (r: ReplyParser)
    ensures
        r == spec_step(s, b),
{
    match s {
        ReplyParser::ExpectEsc => if b == 27 {
            ReplyParser::ExpectBracket
        } else {
            ReplyParser::BadIntroducer
        },
        ReplyParser::ExpectBracket => if b == 91 {
            ReplyParser::Row { acc: 0 }
        } else {
            ReplyParser::Failed { fault: ParseFault::Introducer }
        },
        ReplyParser::BadIntroducer => ReplyParser::Failed { fault: ParseFault::Introducer },
        ReplyParser::Row { acc } => if 48 <= b && b <= 57 {
            let d: i32 = (b - 48) as i32;
            if 0 <= acc && acc <= (i32::MAX - d) / 10 {
                proof {
                    assert(acc * 10 + d <= i32::MAX) by (nonlinear_arith)
                        requires
                            0 <= acc,
                            0 <= d,
                            acc <= (i32::MAX - d) / 10,
                    ;
                }
                ReplyParser::Row { acc: acc * 10 + d }
            } else {
                ReplyParser::Failed { fault: ParseFault::Overflow }
            }
        } else if b == 59 {
            ReplyParser::Col { row: acc, acc: 0 }
        } else {
            ReplyParser::Failed { fault: ParseFault::RowTerminator }
        },
        ReplyParser::Col { row, acc } => if 48 <= b && b <= 57 {
            let d: i32 = (b - 48) as i32;
            if 0 <= acc && acc <= (i32::MAX - d) / 10 {
                proof {
                    assert(acc * 10 + d <= i32::MAX) by (nonlinear_arith)
                        requires
                            0 <= acc,
                            0 <= d,
                            acc <= (i32::MAX - d) / 10,
                    ;
                }
                ReplyParser::Col { row, acc: acc * 10 + d }
            } else {
                ReplyParser::Failed { fault: ParseFault::Overflow }
            }
        } else if b == 82 {
            ReplyParser::Done { col: acc, row }
        } else {
            ReplyParser::Failed { fault: ParseFault::ColTerminator }
        },
        ReplyParser::Done { col, row } => ReplyParser::Done { col, row },
        ReplyParser::Failed { fault } => ReplyParser::Failed { fault },
    }
}

/// The state after consuming a whole byte sequence, front to back.
pub open spec fn spec_run(s: ReplyParser, bytes: Seq<u8>) -> ReplyParser
    decreases bytes.len(),
{
    if bytes.len() == 0 {
        s
    } else {
        spec_run(spec_step(s, bytes[0]), bytes.skip(1))
    }
}

/// Consuming one more byte at the back is one more step.
pub proof fn lemma_run_snoc(s: ReplyParser, bytes: Seq<u8>, b: u8)
    ensures
        spec_run(s, bytes.push(b)) == spec_step(spec_run(s, bytes), b),
    decreases bytes.len(),
{
    if bytes.len() == 0 {
        assert(bytes.push(b)[0] == b);
        assert(bytes.push(b).skip(1) =~= Seq::<u8>::empty());
        assert(spec_run(s, bytes) == s);
        assert(spec_run(s, bytes.push(b)) == spec_run(spec_step(s, b), Seq::<u8>::empty()));
        assert(spec_run(spec_step(s, b), Seq::<u8>::empty()) == spec_step(s, b));
    } else {
        assert(bytes.push(b)[0] == bytes[0]);
        assert(bytes.push(b).skip(1) =~= bytes.skip(1).push(b));
        assert(spec_run(s, bytes.push(b)) == spec_run(spec_step(s, bytes[0]), bytes.skip(1).push(b)));
        lemma_run_snoc(spec_step(s, bytes[0]), bytes.skip(1), b);
        assert(spec_run(s, bytes) == spec_run(spec_step(s, bytes[0]), bytes.skip(1)));
    }
}

/// Running over a concatenation is running over the parts in order.
pub proof fn lemma_run_concat(s: ReplyParser, b1: Seq<u8>, b2: Seq<u8>)
    ensures
        spec_run(s, b1 + b2) == spec_run(spec_run(s, b1), b2),
    decreases b1.len(),
{
    if b1.len() == 0 {
        assert(b1 + b2 =~= b2);
    } else {
        assert((b1 + b2)[0] == b1[0]);
        assert((b1 + b2).skip(1) =~= b1.skip(1) + b2);
        lemma_run_concat(spec_step(s, b1[0]), b1.skip(1), b2);
    }
}

/// A failed parse stays failed: later bytes are never reinterpreted as a
/// fresh reply or a retry.
pub proof fn lemma_failed_absorbing(fault: ParseFault, bytes: Seq<u8>)
    ensures
        (spec_run(ReplyParser::Failed { fault }, bytes) == ReplyParser::Failed { fault }),
    decreases bytes.len(),
{
    if bytes.len() > 0 {
        lemma_failed_absorbing(fault, bytes.skip(1));
    }
}

/// A finished parse stays finished: trailing bytes do not disturb it.
pub proof fn lemma_done_absorbing(col: i32, row: i32, bytes: Seq<u8>)
    ensures
        (spec_run(ReplyParser::Done { col, row }, bytes) == ReplyParser::Done { col, row }),
    decreases bytes.len(),
{
    if bytes.len() > 0 {
        lemma_done_absorbing(col, row, bytes.skip(1));
    }
}

/// A reply that does not begin with `ESC` `[` fails with the introducer
/// fault, and the verdict consumes exactly the two introducer bytes: it
/// is not reached on the first byte alone, and every byte after the
/// second leaves the failure untouched instead of feeding a retry.
pub proof fn lemma_introducer_mismatch(bytes: Seq<u8>)
    requires
        bytes.len() >= 2,
        bytes[0] != 27 || bytes[1] != 91,
    ensures
        (spec_run(ReplyParser::ExpectEsc, bytes) == ReplyParser::Failed {
            fault: ParseFault::Introducer,
        }),
        !(spec_step(ReplyParser::ExpectEsc, bytes[0]) is Failed),
{
    let s1 = spec_step(ReplyParser::ExpectEsc, bytes[0]);
    let s2 = spec_step(s1, bytes[1]);
    assert(spec_run(ReplyParser::ExpectEsc, bytes) == spec_run(s1, bytes.skip(1)));
    assert(bytes.skip(1)[0] == bytes[1]);
    assert(bytes.skip(1).len() >= 1);
    assert(spec_run(s1, bytes.skip(1)) == spec_run(s2, bytes.skip(1).skip(1)));
    assert(bytes.skip(1).skip(1) =~= bytes.skip(2));
    assert(s2 == (ReplyParser::Failed { fault: ParseFault::Introducer }));
    lemma_failed_absorbing(ParseFault::Introducer, bytes.skip(2));
}

/// Feeds a whole buffer to the parser.
pub fn run(s: ReplyParser, bytes: &Vec<u8>) -> (r: ReplyParser)
    ensures
        r == spec_run(s, bytes@),
{
    let mut cur = s;
    let mut i: usize = 0;
    while i < bytes.len()
        invariant
            0 <= i <= bytes@.len(),
            cur == spec_run(s, bytes@.take(i as int)),
        decreases bytes@.len() - i,
    {
        proof {
            lemma_run_snoc(s, bytes@.take(i as int), bytes@[i as int]);
            assert(bytes@.take(i as int).push(bytes@[i as int]) =~= bytes@.take(i as int + 1));
        }
        cur = step(cur, bytes[i]);
        i = i + 1;
    }
    proof {
        assert(bytes@.take(bytes@.len() as int) =~= bytes@);
    }
    cur
}

/// Ten to the `k`.
pub open spec fn pow10(k: nat) -> nat
    decreases k,
{
    if k == 0 {
        1
    } else {
        10 * pow10((k - 1) as nat)
    }
}

pub proof fn lemma_pow10_pos(k: nat)
    ensures
        pow10(k) >= 1,
    decreases k,
{
    if k > 0 {
        lemma_pow10_pos((k - 1) as nat);
    }
}

/// Feeding the digit string of `n` to a parser that is accumulating the
/// row with accumulator `a` shifts `a` left by the digit count and adds
/// `n`, provided the final value fits the position type.
pub proof fn lemma_run_digits_row(a: int, n: nat)
    requires
        0 <= a,
        a * pow10(dec_digits(n).len()) + n <= i32::MAX,
    ensures
        (spec_run(ReplyParser::Row { acc: a as i32 }, dec_digits(n))
            == ReplyParser::Row { acc: (a * pow10(dec_digits(n).len()) + n) as i32 }),
    decreases n,
{
    let ds = dec_digits(n);
    lemma_pow10_pos(ds.len());
    assert(a <= a * pow10(ds.len())) by (nonlinear_arith)
        requires
            0 <= a,
            pow10(ds.len()) >= 1,
    ;
    if n < 10 {
        let b = (48 + n) as u8;
        assert(ds =~= seq![b]);
        assert(pow10(0) == 1);
        assert(pow10(1) == 10);
        assert(is_digit(b) && digit_val(b) == n);
        assert(a <= (i32::MAX - digit_val(b)) / 10) by (nonlinear_arith)
            requires
                0 <= a,
                digit_val(b) == n,
                a * 10 + n <= i32::MAX,
                0 <= n < 10,
        ;
        assert(spec_run(ReplyParser::Row { acc: a as i32 }, ds)
            == spec_run(spec_step(ReplyParser::Row { acc: a as i32 }, b), ds.skip(1)));
        assert(ds.skip(1) =~= Seq::<u8>::empty());
        assert(spec_step(ReplyParser::Row { acc: a as i32 }, b)
            == ReplyParser::Row { acc: (a * 10 + n) as i32 });
    } else {
        let prefix = dec_digits(n / 10);
        let b = (48 + n % 10) as u8;
        let lp = prefix.len();
        assert(ds == prefix.push(b));
        assert(ds.len() == lp + 1);
        assert(pow10(lp + 1) == 10 * pow10(lp));
        lemma_pow10_pos(lp);
        assert(10 * (a * pow10(lp) + n / 10) + n % 10 == a * pow10(lp + 1) + n) by (nonlinear_arith)
            requires
                pow10(lp + 1) == 10 * pow10(lp),
                n == 10 * (n / 10) + n % 10,
        ;
        assert(a * pow10(lp) + n / 10 <= i32::MAX) by (nonlinear_arith)
            requires
                0 <= a,
                0 <= n,
                1 <= pow10(lp),
                10 * (a * pow10(lp) + n / 10) + n % 10 == a * pow10(lp + 1) + n,
                a * pow10(lp + 1) + n <= i32::MAX,
                0 <= n % 10,
        ;
        lemma_run_digits_row(a, n / 10);
        let acc1 = a * pow10(lp) + n / 10;
        lemma_run_snoc(ReplyParser::Row { acc: a as i32 }, prefix, b);
        assert(is_digit(b) && digit_val(b) == n % 10);
        assert(0 <= acc1);
        assert(acc1 <= (i32::MAX - digit_val(b)) / 10) by (nonlinear_arith)
            requires
                0 <= acc1,
                digit_val(b) == n % 10,
                acc1 * 10 + n % 10 <= i32::MAX,
                0 <= n % 10 < 10,
        ;
        assert(spec_step(ReplyParser::Row { acc: acc1 as i32 }, b)
            == ReplyParser::Row { acc: (acc1 * 10 + n % 10) as i32 });
    }
}

/// The column-side counterpart of `lemma_run_digits_row`: the row value
/// already parsed rides along unchanged.
pub proof fn lemma_run_digits_col(row: i32, a: int, n: nat)
    requires
        0 <= a,
        a * pow10(dec_digits(n).len()) + n <= i32::MAX,
    ensures
        (spec_run(ReplyParser::Col { row, acc: a as i32 }, dec_digits(n))
            == ReplyParser::Col { row, acc: (a * pow10(dec_digits(n).len()) + n) as i32 }),
    decreases n,
{
    let ds = dec_digits(n);
    lemma_pow10_pos(ds.len());
    assert(a <= a * pow10(ds.len())) by (nonlinear_arith)
        requires
            0 <= a,
            pow10(ds.len()) >= 1,
    ;
    if n < 10 {
        let b = (48 + n) as u8;
        assert(ds =~= seq![b]);
        assert(pow10(0) == 1);
        assert(pow10(1) == 10);
        assert(is_digit(b) && digit_val(b) == n);
        assert(a <= (i32::MAX - digit_val(b)) / 10) by (nonlinear_arith)
            requires
                0 <= a,
                digit_val(b) == n,
                a * 10 + n <= i32::MAX,
                0 <= n < 10,
        ;
        assert(spec_run(ReplyParser::Col { row, acc: a as i32 }, ds)
            == spec_run(spec_step(ReplyParser::Col { row, acc: a as i32 }, b), ds.skip(1)));
        assert(ds.skip(1) =~= Seq::<u8>::empty());
        assert(spec_step(ReplyParser::Col { row, acc: a as i32 }, b)
            == ReplyParser::Col { row, acc: (a * 10 + n) as i32 });
    } else {
        let prefix = dec_digits(n / 10);
        let b = (48 + n % 10) as u8;
        let lp = prefix.len();
        assert(ds == prefix.push(b));
        assert(ds.len() == lp + 1);
        assert(pow10(lp + 1) == 10 * pow10(lp));
        lemma_pow10_pos(lp);
        assert(10 * (a * pow10(lp) + n / 10) + n % 10 == a * pow10(lp + 1) + n) by (nonlinear_arith)
            requires
                pow10(lp + 1) == 10 * pow10(lp),
                n == 10 * (n / 10) + n % 10,
        ;
        assert(a * pow10(lp) + n / 10 <= i32::MAX) by (nonlinear_arith)
            requires
                0 <= a,
                0 <= n,
                1 <= pow10(lp),
                10 * (a * pow10(lp) + n / 10) + n % 10 == a * pow10(lp + 1) + n,
                a * pow10(lp + 1) + n <= i32::MAX,
                0 <= n % 10,
        ;
        lemma_run_digits_col(row, a, n / 10);
        let acc1 = a * pow10(lp) + n / 10;
        lemma_run_snoc(ReplyParser::Col { row, acc: a as i32 }, prefix, b);
        assert(is_digit(b) && digit_val(b) == n % 10);
        assert(0 <= acc1);
        assert(acc1 <= (i32::MAX - digit_val(b)) / 10) by (nonlinear_arith)
            requires
                0 <= acc1,
                digit_val(b) == n % 10,
                acc1 * 10 + n % 10 <= i32::MAX,
                0 <= n % 10 < 10,
        ;
        assert(spec_step(ReplyParser::Col { row, acc: acc1 as i32 }, b)
            == ReplyParser::Col { row, acc: (acc1 * 10 + n % 10) as i32 });
    }
}

/// The wire form of the reply that reports the cursor at (col, row):
/// `ESC [ <row> ; <col> R`. Like the move command, the wire carries the
/// row first.
pub open spec fn reply_wire(col: nat, row: nat) -> Seq<u8> {
    seq![27u8, 91u8] + dec_digits(row) + seq![59u8] + dec_digits(col) + seq![82u8]
}

/// Round trip: a well-formed reply reporting (col, row) parses to exactly
/// the position (col, row), for every coordinate pair the position type
/// can hold. Together with the definition of `move_wire` this says that
/// moving to a position and querying it read back the same pair, and that
/// the row-first wire order is untransposed back to the public
/// column-first order.
pub proof fn lemma_reply_round_trip(col: int, row: int)
    requires
        1 <= col <= i32::MAX,
        1 <= row <= i32::MAX,
    ensures
        (spec_run(ReplyParser::ExpectEsc, reply_wire(col as nat, row as nat))
            == ReplyParser::Done { col: col as i32, row: row as i32 }),
{
    let p1 = seq![27u8, 91u8];
    let dr = dec_digits(row as nat);
    let p3 = seq![59u8];
    let dc = dec_digits(col as nat);
    let p5 = seq![82u8];
    let s0 = ReplyParser::ExpectEsc;
    assert(reply_wire(col as nat, row as nat) == p1 + dr + p3 + dc + p5);
    lemma_run_concat(s0, p1 + dr + p3 + dc, p5);
    lemma_run_concat(s0, p1 + dr + p3, dc);
    lemma_run_concat(s0, p1 + dr, p3);
    lemma_run_concat(s0, p1, dr);

    // `ESC` `[` leads to row accumulation.
    assert(p1[0] == 27 && p1.skip(1) =~= seq![91u8]);
    assert(spec_run(s0, p1) == spec_run(ReplyParser::ExpectBracket, seq![91u8]));
    assert(seq![91u8][0] == 91 && seq![91u8].skip(1) =~= Seq::<u8>::empty());
    assert(spec_run(ReplyParser::ExpectBracket, seq![91u8])
        == spec_run(ReplyParser::Row { acc: 0 }, Seq::<u8>::empty()));
    assert(spec_run(ReplyParser::Row { acc: 0 }, Seq::<u8>::empty()) == ReplyParser::Row { acc: 0 });
    assert(spec_run(s0, p1) == ReplyParser::Row { acc: 0 });

    // The row digits accumulate to exactly `row`.
    lemma_pow10_pos(dr.len());
    assert(0 * pow10(dr.len()) == 0) by (nonlinear_arith);
    lemma_run_digits_row(0, row as nat);
    assert(spec_run(ReplyParser::Row { acc: 0 }, dr) == ReplyParser::Row { acc: row as i32 });

    // `;` closes the row and opens the column.
    assert(p3[0] == 59 && p3.skip(1) =~= Seq::<u8>::empty());
    assert(!is_digit(59));
    assert(spec_step(ReplyParser::Row { acc: row as i32 }, 59)
        == ReplyParser::Col { row: row as i32, acc: 0 });
    assert(spec_run(ReplyParser::Row { acc: row as i32 }, p3)
        == spec_run(ReplyParser::Col { row: row as i32, acc: 0 }, Seq::<u8>::empty()));
    assert(spec_run(ReplyParser::Row { acc: row as i32 }, p3)
        == ReplyParser::Col { row: row as i32, acc: 0 });

    // The column digits accumulate to exactly `col`.
    lemma_pow10_pos(dc.len());
    assert(0 * pow10(dc.len()) == 0) by (nonlinear_arith);
    lemma_run_digits_col(row as i32, 0, col as nat);
    assert(spec_run(ReplyParser::Col { row: row as i32, acc: 0 }, dc)
        == ReplyParser::Col { row: row as i32, acc: col as i32 });

    // `R` closes the reply.
    assert(p5[0] == 82 && p5.skip(1) =~= Seq::<u8>::empty());
    assert(!is_digit(82));
    assert(spec_step(ReplyParser::Col { row: row as i32, acc: col as i32 }, 82)
        == ReplyParser::Done { col: col as i32, row: row as i32 });
    assert(spec_run(ReplyParser::Col { row: row as i32, acc: col as i32 }, p5)
        == spec_run(ReplyParser::Done { col: col as i32, row: row as i32 }, Seq::<u8>::empty()));
    assert(spec_run(ReplyParser::Col { row: row as i32, acc: col as i32 }, p5)
        == ReplyParser::Done { col: col as i32, row: row as i32 });
}

/// The reply is the move command's own frame: for the same position the
/// two byte strings differ only in the final byte, `H` to move and `R`
/// to report. With the round trip above, moving to a position and
/// parsing the report a conforming terminal then sends read back exactly
/// the position that was set.
pub proof fn lemma_move_and_reply_share_frame(col: nat, row: nat)
    ensures
        crate::wire::move_wire(col, row).len() == reply_wire(col, row).len(),
        crate::wire::move_wire(col, row).drop_last() == reply_wire(col, row).drop_last(),
        crate::wire::move_wire(col, row).last() == 72,
        reply_wire(col, row).last() == 82,
{
    assert(crate::wire::move_wire(col, row).drop_last() =~= reply_wire(col, row).drop_last());
    assert(crate::wire::move_wire(col, row).last() == 72);
    assert(reply_wire(col, row).last() == 82);
}

/// The verdict a parser state stands for once input ends: a position for
/// a complete reply, the recorded fault for a broken one, and for a reply
/// cut short, the expectation the missing bytes would have had to meet.
pub open spec fn spec_outcome(p: ReplyParser) -> Result<Pos, Error> {
    match p {
        ReplyParser::Done { col, row } => Ok(Pos { col, row }),
        ReplyParser::Failed { fault } => Err(Error::ParseError(fault)),
        ReplyParser::ExpectEsc => Err(Error::ParseError(ParseFault::Introducer)),
        ReplyParser::ExpectBracket => Err(Error::ParseError(ParseFault::Introducer)),
        ReplyParser::BadIntroducer => Err(Error::ParseError(ParseFault::Introducer)),
        ReplyParser::Row { .. } => Err(Error::ParseError(ParseFault::RowTerminator)),
        ReplyParser::Col { .. } => Err(Error::ParseError(ParseFault::ColTerminator)),
    }
}

/// Parses one complete reply buffer.
pub fn parse_reply(bytes: &Vec<u8>) -> (r: Result<Pos, Error>)
    ensures
        r == spec_outcome(spec_run(ReplyParser::ExpectEsc, bytes@)),
{
    let end = run(ReplyParser::ExpectEsc, bytes);
    match end {
        ReplyParser::Done { col, row } => Ok(Pos { col, row }),
        ReplyParser::Failed { fault } => Err(Error::ParseError(fault)),
        ReplyParser::ExpectEsc => Err(Error::ParseError(ParseFault::Introducer)),
        ReplyParser::ExpectBracket => Err(Error::ParseError(ParseFault::Introducer)),
        ReplyParser::BadIntroducer => Err(Error::ParseError(ParseFault::Introducer)),
        ReplyParser::Row { .. } => Err(Error::ParseError(ParseFault::RowTerminator)),
        ReplyParser::Col { .. } => Err(Error::ParseError(ParseFault::ColTerminator)),
    }
}

} // verus!
