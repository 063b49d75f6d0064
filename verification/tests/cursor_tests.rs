use base64::Engine;
use chatstream::cursor::{decode_cursor, encode_cursor, encode_then_decode};

#[test]
fn round_trip_small_values() {
    assert_eq!(encode_then_decode(0), 0);
    assert_eq!(encode_then_decode(1), 1);
    assert_eq!(encode_then_decode(7), 7);
    assert_eq!(encode_then_decode(10), 10);
    assert_eq!(encode_then_decode(12345), 12345);
}

#[test]
fn round_trip_large_values() {
    assert_eq!(encode_then_decode(usize::MAX), usize::MAX);
    assert_eq!(encode_then_decode(usize::MAX - 1), usize::MAX - 1);
}

#[test]
fn encode_is_base64_of_decimal_digits() {
    // base64("0") == "MA==", base64("5") == "NQ==", base64("12") == "MTI="
    assert_eq!(encode_cursor(0), "MA==");
    assert_eq!(encode_cursor(5), "NQ==");
    assert_eq!(encode_cursor(12), "MTI=");
    assert_eq!(encode_cursor(100), "MTAw");
}

#[test]
fn decode_accepts_canonical_tokens() {
    assert_eq!(decode_cursor("MA=="), Some(0));
    assert_eq!(decode_cursor("NQ=="), Some(5));
    assert_eq!(decode_cursor("MTI="), Some(12));
}

#[test]
fn decode_rejects_non_base64() {
    assert_eq!(decode_cursor("!!!"), None);
    assert_eq!(decode_cursor("not a token"), None);
}

#[test]
fn decode_rejects_empty_token() {
    // "" decodes to zero bytes, which is not a digit string.
    assert_eq!(decode_cursor(""), None);
}

#[test]
fn decode_rejects_non_numeric_content() {
    let token = base64::engine::general_purpose::STANDARD.encode("abc");
    assert_eq!(decode_cursor(&token), None);
}

#[test]
fn decode_rejects_negative_content() {
    let token = base64::engine::general_purpose::STANDARD.encode("-5");
    assert_eq!(decode_cursor(&token), None);
}

#[test]
fn decode_rejects_overflowing_content() {
    let token = base64::engine::general_purpose::STANDARD.encode("99999999999999999999999999");
    assert_eq!(decode_cursor(&token), None);
}

#[test]
fn decode_rejects_content_with_sign_or_spaces() {
    let plus = base64::engine::general_purpose::STANDARD.encode("+3");
    assert_eq!(decode_cursor(&plus), None);
    let spaced = base64::engine::general_purpose::STANDARD.encode(" 3");
    assert_eq!(decode_cursor(&spaced), None);
}
