//! Tests of the variable-length compact size integer decoder.

use tx_decode::cursor::{ByteCursor, Error};
use tx_decode::read_compact_size_integer;

#[test]
fn lib_test_read_compact_size_integer_one_byte() {
    let mut bytes = ByteCursor::new(vec![1_u8]);
    let length = read_compact_size_integer(&mut bytes).unwrap();
    assert_eq!(length, 1_u64);
}

#[test]
fn lib_test_read_compact_size_integer_three_bytes() {
    let mut bytes = ByteCursor::new(vec![253_u8, 0, 1]);
    let length = read_compact_size_integer(&mut bytes).unwrap();
    assert_eq!(length, 256_u64);
}

#[test]
fn lib_test_read_compact_size_integer_five_bytes() {
    let mut bytes = ByteCursor::new(vec![254_u8, 0, 0, 0, 1]);
    let length = read_compact_size_integer(&mut bytes).unwrap();
    assert_eq!(length, 256_u64.pow(3));
}

#[test]
fn lib_test_read_compact_size_integer_nine_bytes() {
    let mut bytes = ByteCursor::new(vec![255_u8, 0, 0, 0, 0, 0, 0, 0, 1]);
    let length = read_compact_size_integer(&mut bytes).unwrap();
    assert_eq!(length, 256_u64.pow(7));
}

#[test]
fn lib_test_read_compact_size_integer_real_example() {
    // a transaction with 20,000 inputs carries its count as fd204e
    let hex = "fd204e";
    let decoded = hex::decode(hex).unwrap();
    let mut bytes = ByteCursor::new(decoded);
    let length = read_compact_size_integer(&mut bytes).unwrap();
    let expected_length = 20_000_u64;
    assert_eq!(length, expected_length);
}

#[test]
fn main_test_read_compact_size_integer_one_byte() {
    let mut bytes = ByteCursor::new(vec![1_u8]);
    let length = read_compact_size_integer(&mut bytes).unwrap();
    assert_eq!(length, 1_u64);
}

#[test]
fn main_test_read_compact_size_integer_three_bytes() {
    let mut bytes = ByteCursor::new(vec![253_u8, 0, 1]);
    let length = read_compact_size_integer(&mut bytes).unwrap();
    assert_eq!(length, 256_u64);
}

#[test]
fn main_test_read_compact_size_integer_five_bytes() {
    let mut bytes = ByteCursor::new(vec![254_u8, 0, 0, 0, 1]);
    let length = read_compact_size_integer(&mut bytes).unwrap();
    assert_eq!(length, 256_u64.pow(3));
}

#[test]
fn main_test_read_compact_size_integer_nine_bytes() {
    let mut bytes = ByteCursor::new(vec![255_u8, 0, 0, 0, 0, 0, 0, 0, 1]);
    let length = read_compact_size_integer(&mut bytes).unwrap();
    assert_eq!(length, 256_u64.pow(7));
}

#[test]
fn main_test_read_compact_size_integer_real_example() {
    let hex = "fd204e";
    let decoded = hex::decode(hex).unwrap();
    let mut bytes = ByteCursor::new(decoded);
    let length = read_compact_size_integer(&mut bytes).unwrap();
    let expected_length = 20_000_u64;
    assert_eq!(length, expected_length);
}

#[test]
fn compact_size_every_single_byte_discriminator() {
    // every discriminator up to 252 denotes itself and occupies one byte
    for d in 0_u8..=252 {
        let mut cursor = ByteCursor::new(vec![d, 0xff, 0xff]);
        let value = read_compact_size_integer(&mut cursor).unwrap();
        assert_eq!(value, d as u64);
        assert_eq!(cursor.offset(), 1);
    }
}

#[test]
fn compact_size_consumes_exactly_its_width() {
    let mut one = ByteCursor::new(vec![252_u8, 9, 9]);
    read_compact_size_integer(&mut one).unwrap();
    assert_eq!(one.offset(), 1);

    let mut three = ByteCursor::new(vec![253_u8, 0, 1, 9]);
    read_compact_size_integer(&mut three).unwrap();
    assert_eq!(three.offset(), 3);

    let mut five = ByteCursor::new(vec![254_u8, 0, 0, 0, 1, 9]);
    read_compact_size_integer(&mut five).unwrap();
    assert_eq!(five.offset(), 5);

    let mut nine = ByteCursor::new(vec![255_u8, 0, 0, 0, 0, 0, 0, 0, 1, 9]);
    read_compact_size_integer(&mut nine).unwrap();
    assert_eq!(nine.offset(), 9);
}

#[test]
fn compact_size_truncated_payload_fails() {
    let mut cursor = ByteCursor::new(vec![253_u8, 0]);
    assert_eq!(
        read_compact_size_integer(&mut cursor),
        Err(Error::UnexpectedEndOfInput)
    );

    let mut empty = ByteCursor::new(vec![]);
    assert_eq!(
        read_compact_size_integer(&mut empty),
        Err(Error::UnexpectedEndOfInput)
    );
}
