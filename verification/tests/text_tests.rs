use rusty_core::text::{contains_text, parse_unsigned, str_eq, text_byte_lists, text_number, text_numbers, text_numbers_text, text_then_number};

#[test]
fn text_parse_unsigned_accepts_digits_within_bound() {
    assert_eq!(parse_unsigned("0", 10), Some(0));
    assert_eq!(parse_unsigned("10", 10), Some(10));
    assert_eq!(parse_unsigned("+7", 10), Some(7));
    assert_eq!(parse_unsigned("007", 10), Some(7));
    assert_eq!(parse_unsigned("18446744073709551615", u64::MAX), Some(u64::MAX));
}

#[test]
fn text_parse_unsigned_refuses() {
    assert_eq!(parse_unsigned("11", 10), None);
    assert_eq!(parse_unsigned("", 10), None);
    assert_eq!(parse_unsigned("+", 10), None);
    assert_eq!(parse_unsigned("-1", 10), None);
    assert_eq!(parse_unsigned("1 ", 10), None);
    assert_eq!(parse_unsigned("18446744073709551616", u64::MAX), None);
}

#[test]
fn text_parse_matches_std() {
    for s in ["0", "42", "+42", "4294967295", "4294967296", "abc", "", "99999999999999999999"] {
        assert_eq!(parse_unsigned(s, u32::MAX as u64), s.parse::<u32>().ok().map(|v| v as u64));
    }
}

#[test]
fn text_formatting_helpers() {
    assert_eq!(text_number("a ", 0, " b"), "a 0 b");
    assert_eq!(text_then_number("n=", 1234567890), "n=1234567890");
    assert_eq!(text_numbers("x ", u64::MAX, " y ", 5), format!("x {} y 5", u64::MAX));
    assert_eq!(text_numbers_text("<", 1, ",", 2, ">"), "<1,2>");
    assert_eq!(text_byte_lists("h ", &[1, 2], " t ", &[]), format!("h {:?} t {:?}", [1u8, 2], [0u8; 0]));
    assert!(str_eq("abc", "abc"));
    assert!(!str_eq("abc", "abd"));
}

#[test]
fn contains_text_finds_runs_of_characters() {
    assert!(contains_text("Header chain discontinuity: x", "chain discontinuity"));
    assert!(contains_text("abc", ""));
    assert!(contains_text("héllo", "éll"));
    assert!(!contains_text("abc", "abcd"));
    assert!(!contains_text("abcab", "ac"));
}
