use enigma_3d::text::usize_to_decimal;

#[test]
fn decimal_text() {
    assert_eq!(usize_to_decimal(0), "0");
    assert_eq!(usize_to_decimal(7), "7");
    assert_eq!(usize_to_decimal(10), "10");
    assert_eq!(usize_to_decimal(1234567890), "1234567890");
    assert_eq!(usize_to_decimal(usize::MAX), usize::MAX.to_string());
}

use enigma_3d::text::{parse_usize, split_on, split_whitespace};

#[test]
fn whitespace_split() {
    assert_eq!(split_whitespace("  a bb\tc\n"), vec!["a", "bb", "c"]);
    assert_eq!(split_whitespace(""), Vec::<String>::new());
    assert_eq!(split_whitespace("x\u{3000}y"), vec!["x", "y"]);
    assert_eq!(split_whitespace(" \t "), Vec::<String>::new());
}

#[test]
fn char_split() {
    assert_eq!(split_on("1/2/3", '/'), vec!["1", "2", "3"]);
    assert_eq!(split_on("1//3", '/'), vec!["1", "", "3"]);
    assert_eq!(split_on("", '/'), vec![""]);
    assert_eq!(split_on("a/", '/'), vec!["a", ""]);
}

#[test]
fn number_parsing() {
    assert_eq!(parse_usize("42"), Some(42));
    assert_eq!(parse_usize("+7"), Some(7));
    assert_eq!(parse_usize("007"), Some(7));
    assert_eq!(parse_usize(""), None);
    assert_eq!(parse_usize("+"), None);
    assert_eq!(parse_usize("-1"), None);
    assert_eq!(parse_usize("1a"), None);
    assert_eq!(parse_usize(&usize::MAX.to_string()), Some(usize::MAX));
    assert_eq!(parse_usize("99999999999999999999999999"), None);
    for s in ["0", "12", "+3", " 4", "x", "18446744073709551616"] {
        assert_eq!(parse_usize(s), s.parse::<usize>().ok());
    }
}
