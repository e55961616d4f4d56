use screenrec::text::{
    chars_of, contains, decimal_string, join, parse_i64, parse_u32, prefixed, signed_decimal_string,
    starts_with, str_eq, trim,
};

#[test]
fn chars_of_lists_the_characters() {
    assert_eq!(chars_of("a\u{e9}z"), vec!['a', '\u{e9}', 'z']);
    assert_eq!(chars_of(""), Vec::<char>::new());
}

#[test]
fn str_eq_compares_contents() {
    assert!(str_eq("abc", "abc"));
    assert!(!str_eq("abc", "abd"));
    assert!(!str_eq("abc", "ab"));
    assert!(str_eq("", ""));
}

#[test]
fn contains_finds_substrings() {
    assert!(contains("hello world", "lo w"));
    assert!(contains("hello", ""));
    assert!(contains("", ""));
    assert!(contains("hello", "hello"));
    assert!(contains("hello", "o"));
    assert!(!contains("hello", "hellos"));
    assert!(!contains("hello", "lx"));
    assert!(!contains("", "a"));
    assert!(contains("aab", "ab"));
}

#[test]
fn starts_with_checks_the_beginning() {
    assert!(starts_with("audio=default", "audio="));
    assert!(starts_with("abc", ""));
    assert!(!starts_with("abc", "bc"));
    assert!(!starts_with("ab", "abc"));
}

#[test]
fn decimal_string_prints_numbers() {
    assert_eq!(decimal_string(0), "0");
    assert_eq!(decimal_string(7), "7");
    assert_eq!(decimal_string(10), "10");
    assert_eq!(decimal_string(1234567890), "1234567890");
    assert_eq!(decimal_string(u64::MAX), "18446744073709551615");
}

#[test]
fn signed_decimal_string_prints_signs() {
    assert_eq!(signed_decimal_string(0), "0");
    assert_eq!(signed_decimal_string(-1), "-1");
    assert_eq!(signed_decimal_string(42), "42");
    assert_eq!(signed_decimal_string(i64::MIN), "-9223372036854775808");
    assert_eq!(signed_decimal_string(i64::MAX), "9223372036854775807");
}

#[test]
fn parse_u32_follows_the_grammar() {
    assert_eq!(parse_u32("0"), Some(0));
    assert_eq!(parse_u32("+12"), Some(12));
    assert_eq!(parse_u32("0012"), Some(12));
    assert_eq!(parse_u32("4294967295"), Some(u32::MAX));
    assert_eq!(parse_u32("4294967296"), None);
    assert_eq!(parse_u32("99999999999999999999999"), None);
    assert_eq!(parse_u32(""), None);
    assert_eq!(parse_u32("+"), None);
    assert_eq!(parse_u32("-1"), None);
    assert_eq!(parse_u32("1a"), None);
    assert_eq!(parse_u32(" 1"), None);
    assert_eq!(parse_u32("++1"), None);
    assert_eq!(parse_u32("\u{661}"), None);
}

#[test]
fn parse_u32_agrees_with_the_standard_parser() {
    for text in ["0", "+7", "-7", "", "+", "12x", "000", "4294967295", "4294967296", "1_0", "٣"] {
        assert_eq!(parse_u32(text), text.parse::<u32>().ok(), "{}", text);
    }
}

#[test]
fn parse_i64_follows_the_grammar() {
    assert_eq!(parse_i64("0"), Some(0));
    assert_eq!(parse_i64("-0"), Some(0));
    assert_eq!(parse_i64("+15"), Some(15));
    assert_eq!(parse_i64("-15"), Some(-15));
    assert_eq!(parse_i64("9223372036854775807"), Some(i64::MAX));
    assert_eq!(parse_i64("9223372036854775808"), None);
    assert_eq!(parse_i64("-9223372036854775808"), Some(i64::MIN));
    assert_eq!(parse_i64("-9223372036854775809"), None);
    assert_eq!(parse_i64("-"), None);
    assert_eq!(parse_i64("+-1"), None);
    assert_eq!(parse_i64("1.5"), None);
    for text in ["12", "-12", "+", "", "--1", "0x10", "18446744073709551616"] {
        assert_eq!(parse_i64(text), text.parse::<i64>().ok(), "{}", text);
    }
}

#[test]
fn trim_drops_white_space_at_both_ends() {
    assert_eq!(trim("  a b \n"), "a b");
    assert_eq!(trim("\t\r\nx"), "x");
    assert_eq!(trim(""), "");
    assert_eq!(trim(" \n\t "), "");
    assert_eq!(trim("\u{a0}\u{2003}word\u{3000}"), "word");
    assert_eq!(trim("\u{200b}a"), "\u{200b}a");
    for text in [" a ", "\u{85}b\u{1680}", "c", "", "\u{feff}d ", "\u{2028}e\u{2029}", "\u{1c}f"] {
        assert_eq!(trim(text), text.trim(), "{:?}", text);
    }
}

#[test]
fn join_puts_the_separator_between() {
    assert_eq!(join(&Vec::new(), ", "), "");
    assert_eq!(join(&vec!["a".to_string()], ", "), "a");
    assert_eq!(join(&vec!["a".to_string(), "b".to_string(), "c".to_string()], ", "), "a, b, c");
    assert_eq!(join(&vec!["".to_string(), "".to_string()], "-"), "-");
}

#[test]
fn prefixed_concatenates() {
    assert_eq!(prefixed("ab", "cd"), "abcd");
    assert_eq!(prefixed("", ""), "");
}
