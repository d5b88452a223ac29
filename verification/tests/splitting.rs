//! The splitter's behaviour on its basic inputs: a delimiter in the
//! middle, a trailing delimiter, a missing delimiter, a series of
//! segments, and the first-segment convenience function.

use str_split::StrSplit;
use str_split::until_char;

#[test]
fn v1_string_test_single_char_ending_with_delimiter() {
    let mut str_split = StrSplit::new("A ", " ");
    assert_eq!(str_split.next(), Some("A"))
}

#[test]
fn v1_string_test_single_char() {
    let mut str_split = StrSplit::new("A", " ");
    assert_eq!(str_split.next(), Some("A"))
}

#[test]
fn v1_string_test_series() {
    let haystack = "A B C D";
    let letters: Vec<&str> = StrSplit::new(haystack, " ").segments();
    assert_eq!(letters, vec!["A", "B", "C", "D"])
}

#[test]
fn v2_str_test_single_char_ending_with_delimiter() {
    let mut str_split = StrSplit::new("A ", " ");
    assert_eq!(str_split.next(), Some("A"))
}

#[test]
fn v2_str_test_single_char() {
    let mut str_split = StrSplit::new("A", " ");
    assert_eq!(str_split.next(), Some("A"))
}

#[test]
fn v2_str_test_series() {
    let haystack = "A B C D";
    let letters: Vec<&str> = StrSplit::new(haystack, " ").segments();
    assert_eq!(letters, vec!["A", "B", "C", "D"])
}

#[test]
fn v3_delimiter_fix_test_single_char_ending_with_delimiter() {
    let mut str_split = StrSplit::new("A ", " ");
    assert_eq!(str_split.next(), Some("A"))
}

#[test]
fn v3_delimiter_fix_test_single_char() {
    let mut str_split = StrSplit::new("A", " ");
    assert_eq!(str_split.next(), Some("A"))
}

#[test]
fn v3_delimiter_fix_test_series() {
    let haystack = "A B C D";
    let letters: Vec<&str> = StrSplit::new(haystack, " ").segments();
    assert_eq!(letters, vec!["A", "B", "C", "D"])
}

#[test]
fn v4_multiple_lifetime_until_char_test() {
    assert_eq!(until_char("hello world", 'l'), "he")
}

#[test]
fn v4_multiple_lifetime_test_single_char_ending_with_delimiter() {
    let mut str_split = StrSplit::new("A ", " ");
    assert_eq!(str_split.next(), Some("A"))
}

#[test]
fn v4_multiple_lifetime_test_single_char() {
    let mut str_split = StrSplit::new("A", " ");
    assert_eq!(str_split.next(), Some("A"))
}

#[test]
fn v4_multiple_lifetime_test_series() {
    let haystack = "A B C D";
    let letters: Vec<&str> = StrSplit::new(haystack, " ").segments();
    assert_eq!(letters, vec!["A", "B", "C", "D"])
}

#[test]
fn v5_generic_until_char_test() {
    assert_eq!(until_char("hello world", 'l'), "he")
}

#[test]
fn v5_generic_test_single_char_ending_with_delimiter() {
    let mut str_split = StrSplit::new("A ", " ");
    assert_eq!(str_split.next(), Some("A"))
}

#[test]
fn v5_generic_test_single_char() {
    let mut str_split = StrSplit::new("A", " ");
    assert_eq!(str_split.next(), Some("A"))
}

#[test]
fn v5_generic_test_series() {
    let haystack = "A B C D";
    let letters: Vec<&str> = StrSplit::new(haystack, " ").segments();
    assert_eq!(letters, vec!["A", "B", "C", "D"])
}

#[test]
fn v6_final_until_char_test() {
    assert_eq!(until_char("hello world", 'l'), "he")
}

#[test]
fn v6_final_test_single_char_ending_with_delimiter() {
    let mut str_split = StrSplit::new("A ", " ");
    assert_eq!(str_split.next(), Some("A"))
}

#[test]
fn v6_final_test_single_char() {
    let mut str_split = StrSplit::new("A", " ");
    assert_eq!(str_split.next(), Some("A"))
}

#[test]
fn v6_final_test_series() {
    let haystack = "A B C D";
    let letters: Vec<&str> = StrSplit::new(haystack, " ").segments();
    assert_eq!(letters, vec!["A", "B", "C", "D"])
}
