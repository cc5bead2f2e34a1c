use term_cursor::wire::{encode_clear, encode_move_to, encode_query};
use term_cursor::Pos;

#[test]
fn move_wire_is_row_then_column() {
    // The public contract is column-first: col=5, row=2 must go out as
    // ESC [ 2 ; 5 H, row first on the wire.
    let bytes = encode_move_to(Pos::new(5, 2));
    assert_eq!(bytes, vec![0x1B, b'[', b'2', b';', b'5', b'H']);
}

#[test]
fn move_wire_multi_digit() {
    let bytes = encode_move_to(Pos::new(12, 345));
    assert_eq!(bytes, b"\x1B[345;12H".to_vec());
}

#[test]
fn move_wire_top_left() {
    let bytes = encode_move_to(Pos::new(1, 1));
    assert_eq!(bytes, b"\x1B[1;1H".to_vec());
}

#[test]
fn move_wire_largest_coordinates() {
    let bytes = encode_move_to(Pos::new(i32::MAX, i32::MAX));
    assert_eq!(bytes, b"\x1B[2147483647;2147483647H".to_vec());
}

#[test]
fn clear_wire_is_full_reset() {
    assert_eq!(encode_clear(), vec![0x1B, b'c']);
}

#[test]
fn clear_twice_is_identical() {
    // Clearing is idempotent as far as the library can observe: the
    // command is a constant byte sequence and encoding it cannot fail.
    let first = encode_clear();
    let second = encode_clear();
    assert_eq!(first, second);
    assert_eq!(second, vec![0x1B, b'c']);
}

#[test]
fn query_wire_requests_position_report() {
    assert_eq!(encode_query(), vec![0x1B, b'[', b'6', b'n']);
}
