//! Text and numerals.

use boss::text::{
    chars_of, decimal_text, hexadecimal_text, parse_number16, same_bytes, same_text, starts_with,
};

#[test]
fn decimal_numerals() {
    for n in [0, 7, 10, 99, 100, 1883, 65535, u64::MAX] {
        assert_eq!(decimal_text(n), n.to_string());
    }
}

#[test]
fn hexadecimal_numerals() {
    for n in [0, 9, 10, 15, 16, 255, 0xdead_beef, u64::MAX] {
        assert_eq!(hexadecimal_text(n), format!("{n:x}"));
    }
}

#[test]
fn numbers_read_back() {
    for n in [0u16, 1, 9, 10, 255, 256, 65535] {
        assert_eq!(parse_number16(&decimal_text(n as u64)), Some(n));
        assert_eq!(parse_number16(&n.to_string()), n.to_string().parse().ok());
    }
    for bad in ["", "+", "++1", "1a", "65536", "-0", "١"] {
        assert_eq!(parse_number16(bad), None);
        assert!(bad.parse::<u16>().is_err());
    }
}

#[test]
fn texts_are_compared_whole() {
    assert!(same_text("grün", "grün"));
    assert!(!same_text("grün", "grun"));
    assert!(!same_text("a", "ab"));
    assert!(same_text("", ""));
}

#[test]
fn bytes_are_compared_whole() {
    assert!(same_bytes(b"ON", b"ON"));
    assert!(!same_bytes(b"ON", b"ON "));
    assert!(!same_bytes(b"ON", b"on"));
    assert!(same_bytes(b"", b""));
}

#[test]
fn prefixes() {
    assert!(starts_with("eth0", "eth"));
    assert!(starts_with("eth", "eth"));
    assert!(!starts_with("et", "eth"));
    assert!(!starts_with("xeth", "eth"));
    assert!(starts_with("x", ""));
}

#[test]
fn characters_in_order() {
    assert_eq!(chars_of("aé漢"), vec!['a', 'é', '漢']);
}
