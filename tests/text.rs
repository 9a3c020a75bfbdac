use librarian::text::{
    find_char, is_whitespace, leading_whitespace, parse_u8, split_lines, split_once, trim,
    two_digit_string,
};

#[test]
fn two_digits_pad_small_numbers() {
    assert_eq!(two_digit_string(0), "00");
    assert_eq!(two_digit_string(7), "07");
    assert_eq!(two_digit_string(42), "42");
    assert_eq!(two_digit_string(100), "100");
    assert_eq!(two_digit_string(255), "255");
}

#[test]
fn u8_tokens() {
    assert_eq!(parse_u8("0"), Some(0));
    assert_eq!(parse_u8("007"), Some(7));
    assert_eq!(parse_u8("+5"), Some(5));
    assert_eq!(parse_u8("255"), Some(255));
    assert_eq!(parse_u8("256"), None);
    assert_eq!(parse_u8("1000"), None);
    assert_eq!(parse_u8("-1"), None);
    assert_eq!(parse_u8("+"), None);
    assert_eq!(parse_u8(""), None);
    assert_eq!(parse_u8("1a"), None);
    assert_eq!(parse_u8("99999999x"), None);
}

#[test]
fn u8_tokens_agree_with_std() {
    for s in ["0", "12", "+12", "255", "256", "-0", "abc", "", " 1", "1 ", "0000000255"] {
        assert_eq!(parse_u8(s), s.parse::<u8>().ok(), "{s:?}");
    }
}

#[test]
fn whitespace_and_trim() {
    assert!(is_whitespace(' '));
    assert!(is_whitespace('\t'));
    assert!(is_whitespace('\u{3000}'));
    assert!(!is_whitespace('x'));
    assert_eq!(leading_whitespace("  a b "), 2);
    assert_eq!(trim("  a b \t"), "a b");
    assert_eq!(trim("   "), "");
    assert_eq!(trim(" \u{a0}x\u{2003}"), " \u{a0}x\u{2003}".trim());
}

#[test]
fn split_at_the_first_occurrence() {
    assert_eq!(split_once("01 Finance Dept", ' '), ("01", "Finance Dept"));
    assert_eq!(split_once("01", ' '), ("01", ""));
    assert_eq!(split_once("00-01-02", '-'), ("00", "01-02"));
    assert_eq!(find_char("abc", 'c'), 2);
    assert_eq!(find_char("abc", 'z'), 3);
}

#[test]
fn lines_agree_with_std() {
    for s in ["", "a", "a\n", "a\nb", "a\r\nb\r\n", "\n", "\n\n", "a\n\nb", "x\r\n\r\n"] {
        let expected: Vec<&str> = s.lines().collect();
        assert_eq!(split_lines(s), expected, "{s:?}");
    }
}
