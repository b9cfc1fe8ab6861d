use opensuperwhisper::text::{
    chars_of, decimal_string, is_white_space, signed_decimal_string, string_of_range, trim,
};

#[test]
fn trim_removes_ascii_space_at_both_ends() {
    assert_eq!(trim("  hello world \n\t"), "hello world");
}

#[test]
fn trim_removes_unicode_white_space() {
    assert_eq!(trim("\u{3000}\u{00A0}你好\u{2003}\u{0085}"), "你好");
}

#[test]
fn trim_keeps_inner_space() {
    assert_eq!(trim("a  b"), "a  b");
}

#[test]
fn trim_of_only_space_is_empty() {
    assert_eq!(trim(" \n\r\t "), "");
    assert_eq!(trim(""), "");
}

#[test]
fn trim_matches_std_trim() {
    for s in ["", " x ", "\u{200B}x\u{200B}", "\u{1680}y\u{205F}", " a b c ", "\u{FEFF}z"] {
        assert_eq!(trim(s), s.trim());
    }
}

#[test]
fn trim_is_idempotent_on_example() {
    let once = trim("\t keep me  ");
    assert_eq!(trim(&once), once);
}

#[test]
fn white_space_agrees_with_std() {
    for u in 0u32..0x3100 {
        if let Some(c) = char::from_u32(u) {
            assert_eq!(is_white_space(c), c.is_whitespace(), "code point {:x}", u);
        }
    }
}

#[test]
fn decimal_of_small_and_large_numbers() {
    assert_eq!(decimal_string(0), "0");
    assert_eq!(decimal_string(7), "7");
    assert_eq!(decimal_string(10), "10");
    assert_eq!(decimal_string(1234567890), "1234567890");
    assert_eq!(decimal_string(u64::MAX), u64::MAX.to_string());
}

#[test]
fn signed_decimal_of_negative_numbers() {
    assert_eq!(signed_decimal_string(-42), "-42");
    assert_eq!(signed_decimal_string(0), "0");
    assert_eq!(signed_decimal_string(i64::MIN), i64::MIN.to_string());
    assert_eq!(signed_decimal_string(i64::MAX), i64::MAX.to_string());
}

#[test]
fn chars_and_ranges() {
    let v = chars_of("héllo");
    assert_eq!(v, vec!['h', 'é', 'l', 'l', 'o']);
    assert_eq!(string_of_range(&v, 1, 4), "éll");
    assert_eq!(string_of_range(&v, 2, 2), "");
}
