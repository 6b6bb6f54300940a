//! Cutting text to a character limit without leaving half a character.

use ceyrad::portable::text::truncate;

#[test]
fn a_string_within_the_limit_is_handed_back_as_it_is() {
    assert_eq!(truncate("Brand New", 32), "Brand New");
    assert_eq!(truncate("abcd", 4), "abcd");
}

#[test]
fn the_limit_counts_characters_not_bytes() {
    assert_eq!(truncate("あいうえお", 3), "あいう");
}

#[test]
fn a_whole_character_sitting_on_the_limit_keeps_its_marks() {
    assert_eq!(truncate("ae\u{0301}i", 3), "ae\u{0301}");
}

#[test]
fn the_leftovers_of_a_split_character_go_with_it() {
    assert_eq!(truncate("ae\u{0301}\u{0300}i", 3), "ae");
}

#[test]
fn a_dangling_joiner_is_not_left_at_the_end() {
    let family = "\u{1F468}\u{200D}\u{1F469}\u{200D}\u{1F467}";
    assert_eq!(truncate(family, 2), "\u{1F468}");
}

#[test]
fn a_string_of_nothing_but_marks_truncates_to_empty() {
    assert_eq!(truncate(&"\u{0301}".repeat(10), 4), "");
}

#[test]
fn a_complete_flag_on_the_limit_survives() {
    let flag = "\u{1F1EF}\u{1F1F5}";
    assert_eq!(truncate(&format!("{flag}x"), 2), flag);
}

#[test]
fn a_limit_of_zero_leaves_nothing() {
    assert_eq!(truncate("abc", 0), "");
}
