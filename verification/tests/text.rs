use tx_pigeon::text::{decimal_text, HexError};
use tx_pigeon::transaction::{Transaction, TxError};

#[test]
fn decimal_numbers() {
    assert_eq!(decimal_text(0), "0");
    assert_eq!(decimal_text(7), "7");
    assert_eq!(decimal_text(10), "10");
    assert_eq!(decimal_text(1234567890), "1234567890");
    assert_eq!(decimal_text(usize::MAX), usize::MAX.to_string());
}

#[test]
fn hex_of_odd_length_is_refused() {
    let e = Transaction::from_hex("123").unwrap_err();
    assert_eq!(e, TxError::InvalidHex(HexError::OddLength));
    assert_eq!(e.message(), "Invalid hex string: Odd number of digits");
}

#[test]
fn odd_length_is_found_before_a_bad_character() {
    let e = Transaction::from_hex("xyz").unwrap_err();
    assert_eq!(e, TxError::InvalidHex(HexError::OddLength));
}

#[test]
fn the_first_bad_character_is_named() {
    let e = Transaction::from_hex("012g4h").unwrap_err();
    assert_eq!(e, TxError::InvalidHex(HexError::InvalidCharacter { c: 'g', index: 3 }));
    assert_eq!(e.message(), "Invalid hex string: Invalid character 'g' at position 3");
}

#[test]
fn the_documented_bad_request() {
    let e = Transaction::from_hex("invalid_hex_string").unwrap_err();
    assert!(e.message().starts_with("Invalid hex string: Invalid character"));
    assert_eq!(e.message(), "Invalid hex string: Invalid character 'i' at position 0");
}

#[test]
fn a_bad_character_is_escaped() {
    let e = Transaction::from_hex("00\n0").unwrap_err();
    assert_eq!(e.message(), "Invalid hex string: Invalid character '\\n' at position 2");
    let e = Transaction::from_hex("0'").unwrap_err();
    assert_eq!(e.message(), "Invalid hex string: Invalid character '\\'' at position 1");
}

#[test]
fn a_character_outside_ascii_is_shown_by_its_first_byte() {
    let e = Transaction::from_hex("é").unwrap_err();
    assert_eq!(e, TxError::InvalidHex(HexError::InvalidCharacter { c: 'Ã', index: 0 }));
}

#[test]
fn words_for_each_hex_error() {
    assert_eq!(HexError::OddLength.message(), "Odd number of digits");
    assert_eq!(HexError::InvalidStringLength.message(), "Invalid string length");
    assert_eq!(
        HexError::InvalidCharacter { c: '"', index: 12 }.message(),
        "Invalid character '\"' at position 12"
    );
}

#[test]
fn letter_case_keeps_the_place_of_a_bad_character() {
    let place = |text: &str| match Transaction::from_hex(text) {
        Err(TxError::InvalidHex(HexError::InvalidCharacter { c, index })) => (c, index),
        other => panic!("{:?}", other),
    };
    assert_eq!(place("aB0xFF"), ('x', 3));
    assert_eq!(place("Ab0Xff"), ('X', 3));
}
