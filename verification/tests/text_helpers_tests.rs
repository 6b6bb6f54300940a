//! The number and character helpers the rest of the library is written
//! with: decimal text, parsing, trimming, searching and splitting.

use ceyrad::numbers::{decimal_string, parse_i32, parse_u64, push_signed_decimal, push_two_digits};
use ceyrad::strings::{
    char_to_ascii_lower, chars_eq_ignore_ascii_case, chars_of, find_chars, replace_all,
    split_chars, string_from, trim_chars,
};

fn chars(s: &str) -> Vec<char> {
    s.chars().collect()
}

#[test]
fn numbers_are_written_in_decimal() {
    assert_eq!(decimal_string(0), "0");
    assert_eq!(decimal_string(1234567890), "1234567890");
    assert_eq!(decimal_string(u64::MAX), u64::MAX.to_string());
    let mut out = String::from("t=");
    push_signed_decimal(&mut out, i64::MIN);
    assert_eq!(out, format!("t={}", i64::MIN));
    let mut out = String::new();
    push_two_digits(&mut out, 7);
    push_two_digits(&mut out, 42);
    push_two_digits(&mut out, 123);
    assert_eq!(out, "0742123");
}

#[test]
fn parsing_agrees_with_std() {
    for text in ["0", "42", "+7", "-7", "", "+", "-", "12a", "18446744073709551615", "18446744073709551616"] {
        assert_eq!(parse_u64(&chars(text)), text.parse::<u64>().ok(), "{text:?}");
    }
    for text in ["0", "-5", "+5", "2147483647", "2147483648", "-2147483648", "-2147483649", "--1", " 1"] {
        assert_eq!(parse_i32(&chars(text)), text.parse::<i32>().ok(), "{text:?}");
    }
}

#[test]
fn decimal_text_reads_back() {
    for n in [0u64, 9, 10, 99, 100, 65535, u64::MAX] {
        assert_eq!(parse_u64(&chars(&decimal_string(n))), Some(n));
    }
}

#[test]
fn trimming_drops_unicode_whitespace_at_both_ends() {
    assert_eq!(string_from(&trim_chars(&chars("\u{3000} a b \t\n"))), "a b");
    assert_eq!(string_from(&trim_chars(&chars("   "))), "");
}

#[test]
fn searching_finds_the_first_occurrence() {
    assert_eq!(find_chars(&chars("abcabc"), &chars("ca")), Some(2));
    assert_eq!(find_chars(&chars("abc"), &chars("")), Some(0));
    assert_eq!(find_chars(&chars("abc"), &chars("d")), None);
}

#[test]
fn replacing_every_occurrence_left_to_right() {
    assert_eq!(string_from(&replace_all(&chars("aaa"), &chars("aa"), &chars("b"))), "ba");
    assert_eq!(string_from(&replace_all(&chars("a&b&c"), &chars("&"), &chars("&&"))), "a&&b&&c");
}

#[test]
fn splitting_keeps_empty_pieces() {
    let pieces: Vec<String> = split_chars(&chars(",a,,b,"), ',').iter().map(|p| string_from(p)).collect();
    assert_eq!(pieces, vec!["", "a", "", "b", ""]);
}

#[test]
fn ascii_case_is_folded_and_nothing_else() {
    assert_eq!(char_to_ascii_lower('Q'), 'q');
    assert_eq!(char_to_ascii_lower('Ä'), 'Ä');
    assert!(chars_eq_ignore_ascii_case(&chars("C:\\Apps"), &chars("c:\\APPS")));
    assert!(!chars_eq_ignore_ascii_case(&chars("Ä"), &chars("ä")));
    assert_eq!(chars_of("日本"), vec!['日', '本']);
}
