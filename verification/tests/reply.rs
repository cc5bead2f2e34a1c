use term_cursor::reply::{parse_reply, run, step, ReplyParser};
use term_cursor::wire::encode_move_to;
use term_cursor::{Error, ParseFault, Pos};

#[test]
fn reply_parses_in_column_first_order() {
    // The wire carries row-then-column; the result must be column-first.
    let r = parse_reply(&b"\x1B[2;5R".to_vec());
    assert_eq!(r, Ok(Pos::new(5, 2)));
}

#[test]
fn digit_accumulation_yields_123() {
    let s = step(step(ReplyParser::ExpectEsc, 0x1B), b'[');
    assert_eq!(s, ReplyParser::Row { acc: 0 });
    let s = step(s, b'1');
    let s = step(s, b'2');
    let s = step(s, b'3');
    assert_eq!(s, ReplyParser::Row { acc: 123 });
    let s = step(s, b';');
    assert_eq!(s, ReplyParser::Col { row: 123, acc: 0 });
}

#[test]
fn digit_accumulation_zero_is_zero() {
    let s = step(step(ReplyParser::ExpectEsc, 0x1B), b'[');
    let s = step(s, b'0');
    assert_eq!(s, ReplyParser::Row { acc: 0 });
    let s = step(s, b';');
    assert_eq!(s, ReplyParser::Col { row: 0, acc: 0 });
}

#[test]
fn introducer_mismatch_consumes_exactly_two_bytes() {
    // The verdict waits for the second introducer byte: after `q` the
    // parser still owes one read, and only `q[` complete fails.
    let s = step(ReplyParser::ExpectEsc, b'q');
    assert_eq!(s, ReplyParser::BadIntroducer);
    let s = step(s, b'[');
    assert_eq!(s, ReplyParser::Failed { fault: ParseFault::Introducer });
    // Later bytes are not reinterpreted as a retry: the failure sticks.
    let s = run(s, &b"\x1B[2;5R".to_vec());
    assert_eq!(s, ReplyParser::Failed { fault: ParseFault::Introducer });
}

#[test]
fn introducer_mismatch_yields_parse_error() {
    let r = parse_reply(&b"q[2;5R".to_vec());
    assert_eq!(r, Err(Error::ParseError(ParseFault::Introducer)));
}

#[test]
fn introducer_second_byte_mismatch() {
    let r = parse_reply(&b"\x1B(2;5R".to_vec());
    assert_eq!(r, Err(Error::ParseError(ParseFault::Introducer)));
}

#[test]
fn bad_row_terminator() {
    let r = parse_reply(&b"\x1B[12x5R".to_vec());
    assert_eq!(r, Err(Error::ParseError(ParseFault::RowTerminator)));
}

#[test]
fn bad_col_terminator() {
    let r = parse_reply(&b"\x1B[2;5x".to_vec());
    assert_eq!(r, Err(Error::ParseError(ParseFault::ColTerminator)));
}

#[test]
fn truncated_reply_reports_missing_expectation() {
    assert_eq!(
        parse_reply(&b"".to_vec()),
        Err(Error::ParseError(ParseFault::Introducer))
    );
    assert_eq!(
        parse_reply(&b"q".to_vec()),
        Err(Error::ParseError(ParseFault::Introducer))
    );
    assert_eq!(
        parse_reply(&b"\x1B[12".to_vec()),
        Err(Error::ParseError(ParseFault::RowTerminator))
    );
    assert_eq!(
        parse_reply(&b"\x1B[12;9".to_vec()),
        Err(Error::ParseError(ParseFault::ColTerminator))
    );
}

#[test]
fn coordinate_at_i32_max_parses() {
    let r = parse_reply(&b"\x1B[1;2147483647R".to_vec());
    assert_eq!(r, Ok(Pos::new(2147483647, 1)));
}

#[test]
fn coordinate_past_i32_max_overflows() {
    let r = parse_reply(&b"\x1B[1;2147483648R".to_vec());
    assert_eq!(r, Err(Error::ParseError(ParseFault::Overflow)));
    let r = parse_reply(&b"\x1B[99999999999;1R".to_vec());
    assert_eq!(r, Err(Error::ParseError(ParseFault::Overflow)));
}

#[test]
fn trailing_bytes_leave_a_finished_parse_alone() {
    let s = run(ReplyParser::ExpectEsc, &b"\x1B[2;5R".to_vec());
    assert_eq!(s, ReplyParser::Done { col: 5, row: 2 });
    let s = run(s, &b"garbage".to_vec());
    assert_eq!(s, ReplyParser::Done { col: 5, row: 2 });
}

#[test]
fn move_then_query_round_trip() {
    // A terminal that honors ESC[row;colH reports back ESC[row;colR:
    // the reply is the move command with its final byte swapped. The
    // parsed position must equal what was asked for.
    let pos = Pos::new(480, 1024);
    let mut frame = encode_move_to(pos);
    let last = frame.len() - 1;
    assert_eq!(frame[last], b'H');
    frame[last] = b'R';
    assert_eq!(parse_reply(&frame), Ok(pos));
}
