use termlight::text::{find_char_from, i32_text, parse_i32, split_lines, starts_with, str_eq, trim_of};

#[test]
fn parse_i32_reads_signs_digits_and_bounds() {
    assert_eq!(parse_i32("0"), Some(0));
    assert_eq!(parse_i32("123"), Some(123));
    assert_eq!(parse_i32("+7"), Some(7));
    assert_eq!(parse_i32("-42"), Some(-42));
    assert_eq!(parse_i32("007"), Some(7));
    assert_eq!(parse_i32("2147483647"), Some(i32::MAX));
    assert_eq!(parse_i32("-2147483648"), Some(i32::MIN));
    assert_eq!(parse_i32("2147483648"), None);
    assert_eq!(parse_i32("-2147483649"), None);
    assert_eq!(parse_i32(""), None);
    assert_eq!(parse_i32("+"), None);
    assert_eq!(parse_i32("-"), None);
    assert_eq!(parse_i32("1 2"), None);
    assert_eq!(parse_i32("12a"), None);
    assert_eq!(parse_i32(" 12"), None);
}

#[test]
fn i32_text_renders_decimal() {
    assert_eq!(i32_text(0), "0");
    assert_eq!(i32_text(5), "5");
    assert_eq!(i32_text(-5), "-5");
    assert_eq!(i32_text(57600), "57600");
    assert_eq!(i32_text(i32::MAX), "2147483647");
    assert_eq!(i32_text(i32::MIN), "-2147483648");
}

#[test]
fn trim_removes_surrounding_white_space() {
    assert_eq!(trim_of("  hello \t"), "hello");
    assert_eq!(trim_of("\r\n"), "");
    assert_eq!(trim_of(""), "");
    assert_eq!(trim_of("a b"), "a b");
    assert_eq!(trim_of("COM3\r"), "COM3");
}

#[test]
fn split_lines_matches_line_terminators() {
    assert_eq!(split_lines(""), Vec::<String>::new());
    assert_eq!(split_lines("a\nb"), vec!["a", "b"]);
    assert_eq!(split_lines("a\nb\n"), vec!["a", "b"]);
    assert_eq!(split_lines("a\r\nb\r\n"), vec!["a", "b"]);
    assert_eq!(split_lines("a\n\nb"), vec!["a", "", "b"]);
    assert_eq!(split_lines("\n"), vec![""]);
}

#[test]
fn prefix_and_equality_tests_compare_characters() {
    assert!(str_eq("VERSION", "VERSION"));
    assert!(!str_eq("VERSION", "VERSIONS"));
    assert!(starts_with("COMMDISPLAY", "COMM"));
    assert!(!starts_with("COMM", "COMMDISPLAY"));
    assert!(starts_with("anything", ""));
}

#[test]
fn find_char_from_reports_first_occurrence() {
    assert_eq!(find_char_from("a\"b\"c", '"', 0), Some(1));
    assert_eq!(find_char_from("a\"b\"c", '"', 2), Some(3));
    assert_eq!(find_char_from("abc", '"', 0), None);
    assert_eq!(find_char_from("abc", 'a', 1), None);
}
