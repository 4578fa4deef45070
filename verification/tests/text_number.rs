use thru::number::{decimal, parse_unsigned};
use thru::text::{chars_of, contains, lines_of, split_chars, starts_with, tokens_of, trim};

fn strings(v: Vec<Vec<char>>) -> Vec<String> {
    v.into_iter().map(|cs| cs.into_iter().collect()).collect()
}

#[test]
fn trim_removes_unicode_white_space_at_both_ends() {
    assert_eq!(trim("  a b \n"), "a b");
    assert_eq!(trim("\u{3000}x\u{a0}\t"), "x");
    assert_eq!(trim(" \r\n "), "");
    assert_eq!(trim("abc"), "abc");
}

#[test]
fn split_keeps_empty_pieces() {
    assert_eq!(strings(split_chars(&chars_of("a.b..c"), '.')), vec!["a", "b", "", "c"]);
    assert_eq!(strings(split_chars(&chars_of(""), '.')), vec![""]);
    assert_eq!(strings(split_chars(&chars_of("."), '.')), vec!["", ""]);
}

#[test]
fn tokens_split_on_white_space_runs() {
    assert_eq!(strings(tokens_of(&chars_of("  -rw-r--r--  1 u  g   12 Mar 25 14:30 a.txt "))),
        vec!["-rw-r--r--", "1", "u", "g", "12", "Mar", "25", "14:30", "a.txt"]);
    assert_eq!(strings(tokens_of(&chars_of(" \t "))), Vec::<String>::new());
}

#[test]
fn lines_follow_str_lines() {
    let text = "foo\nbar\n\r\nbaz\r";
    let expected: Vec<String> = text.lines().map(|l| l.to_string()).collect();
    assert_eq!(strings(lines_of(&chars_of(text))), expected);
    assert_eq!(strings(lines_of(&chars_of("a\r\nb\n"))), vec!["a", "b"]);
    assert_eq!(strings(lines_of(&chars_of(""))), Vec::<String>::new());
    assert_eq!(strings(lines_of(&chars_of("\n"))), vec![""]);
}

#[test]
fn contains_and_starts_with() {
    assert!(contains("ls: EMPTY", "EMPTY"));
    assert!(!contains("EMPT", "EMPTY"));
    assert!(contains("abc", ""));
    assert!(starts_with("100.1.2.3", "100."));
    assert!(!starts_with("100", "100."));
}

#[test]
fn parse_follows_std_grammar() {
    assert_eq!(parse_unsigned("255", 255), Some(255));
    assert_eq!(parse_unsigned("256", 255), None);
    assert_eq!(parse_unsigned("+7", 255), Some(7));
    assert_eq!(parse_unsigned("+", 255), None);
    assert_eq!(parse_unsigned("", 255), None);
    assert_eq!(parse_unsigned("-1", 255), None);
    assert_eq!(parse_unsigned("00012", 255), Some(12));
    assert_eq!(parse_unsigned(" 1", 255), None);
    assert_eq!(parse_unsigned("18446744073709551615", u64::MAX), Some(u64::MAX));
    assert_eq!(parse_unsigned("18446744073709551616", u64::MAX), None);
    for s in ["0", "42", "+42", "65535", "65536", "x1", "1x"] {
        assert_eq!(parse_unsigned(s, 65535), s.parse::<u16>().ok().map(|v| v as u64));
    }
}

#[test]
fn decimal_writes_canonically_and_reads_back() {
    assert_eq!(decimal(0), "0");
    assert_eq!(decimal(8022), "8022");
    assert_eq!(decimal(u64::MAX), "18446744073709551615");
    for n in [0u64, 7, 10, 99, 100, 53317, 1 << 40] {
        assert_eq!(parse_unsigned(&decimal(n), u64::MAX), Some(n));
    }
}
