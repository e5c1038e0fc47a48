//! The character-token decoder on concrete tokens.

use kers::decode_char;

#[test]
fn bare_characters_stand_for_themselves() {
    assert_eq!(decode_char("x"), Some('x'));
    assert_eq!(decode_char("é"), Some('é'));
    assert_eq!(decode_char(""), None);
    assert_eq!(decode_char("ab"), None);
}

#[test]
fn named_escapes_decode() {
    assert_eq!(decode_char("\\n"), Some('\n'));
    assert_eq!(decode_char("\\t"), Some('\t'));
    assert_eq!(decode_char("\\r"), Some('\r'));
    assert_eq!(decode_char("\\b"), Some('\x08'));
    assert_eq!(decode_char("\\f"), Some('\x0c'));
    assert_eq!(decode_char("\\\""), Some('"'));
    assert_eq!(decode_char("\\'"), Some('\''));
    assert_eq!(decode_char("\\\\"), Some('\\'));
    assert_eq!(decode_char("\\/"), Some('/'));
    assert_eq!(decode_char("\\q"), None);
    assert_eq!(decode_char("\\n "), None);
}

#[test]
fn decimal_escapes_decode_to_their_code_points() {
    assert_eq!(decode_char("\\u65"), Some('A'));
    assert_eq!(decode_char("\\u10"), Some('\n'));
    assert_eq!(decode_char("\\u233"), Some('é'));
    assert_eq!(decode_char("\\u0"), Some('\0'));
}

#[test]
fn invalid_decimal_escapes_fail_closed() {
    // No digits at all.
    assert_eq!(decode_char("\\u"), None);
    // A surrogate code point.
    assert_eq!(decode_char("\\u55296"), None);
    // Past the largest code point.
    assert_eq!(decode_char("\\u1114112"), None);
    // A non-digit in the tail.
    assert_eq!(decode_char("\\u12x"), None);
}

#[test]
fn largest_code_point_decodes() {
    assert_eq!(decode_char("\\u1114111"), Some('\u{10FFFF}'));
}
