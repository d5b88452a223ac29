//! The splitter's behaviour at its edges: empty sources, trailing and
//! adjacent delimiters, multi-byte characters, character-set delimiters,
//! exhaustion, and reconstruction of the source from the segments.

use str_split::StrSplit;
use str_split::until_char;

#[test]
fn empty_source_yields_one_empty_segment() {
    let segs: Vec<&str> = StrSplit::new("", " ").segments();
    assert_eq!(segs, vec![""]);
}

#[test]
fn trailing_delimiter_yields_one_trailing_empty_segment() {
    let segs: Vec<&str> = StrSplit::new("A ", " ").segments();
    assert_eq!(segs, vec!["A", ""]);
}

#[test]
fn delimiter_absent_yields_whole_source() {
    let segs: Vec<&str> = StrSplit::new("A", " ").segments();
    assert_eq!(segs, vec!["A"]);
}

#[test]
fn adjacent_delimiters_yield_empty_middle_segment() {
    let segs: Vec<&str> = StrSplit::new("a,,b", ",").segments();
    assert_eq!(segs, vec!["a", "", "b"]);
}

#[test]
fn leading_delimiter_yields_leading_empty_segment() {
    let segs: Vec<&str> = StrSplit::new(",a", ",").segments();
    assert_eq!(segs, vec!["", "a"]);
}

#[test]
fn source_equal_to_delimiter_yields_two_empty_segments() {
    let segs: Vec<&str> = StrSplit::new(",", ",").segments();
    assert_eq!(segs, vec!["", ""]);
}

#[test]
fn empty_pattern_never_matches() {
    let segs: Vec<&str> = StrSplit::new("abc", "").segments();
    assert_eq!(segs, vec!["abc"]);
}

#[test]
fn multi_character_pattern() {
    let segs: Vec<&str> = StrSplit::new("a--b--c", "--").segments();
    assert_eq!(segs, vec!["a", "b", "c"]);
}

#[test]
fn overlapping_pattern_takes_leftmost_occurrence() {
    let segs: Vec<&str> = StrSplit::new("aaa", "aa").segments();
    assert_eq!(segs, vec!["", "a"]);
}

#[test]
fn char_delimiter_in_multibyte_text() {
    let segs: Vec<&str> = StrSplit::new("αβ γδ", ' ').segments();
    assert_eq!(segs, vec!["αβ", "γδ"]);
}

#[test]
fn multibyte_char_delimiter() {
    let segs: Vec<&str> = StrSplit::new("aβb", 'β').segments();
    assert_eq!(segs, vec!["a", "b"]);
}

#[test]
fn multibyte_pattern_delimiter() {
    let segs: Vec<&str> = StrSplit::new("xαβy", "αβ").segments();
    assert_eq!(segs, vec!["x", "y"]);
}

#[test]
fn char_set_delimiter_matches_any_member() {
    let set: [char; 2] = ['-', '_'];
    let segs: Vec<&str> = StrSplit::new("a-b_c", &set[..]).segments();
    assert_eq!(segs, vec!["a", "b", "c"]);
}

#[test]
fn char_set_delimiter_with_trailing_member() {
    let set: [char; 2] = [';', '.'];
    let segs: Vec<&str> = StrSplit::new("x.y;", &set[..]).segments();
    assert_eq!(segs, vec!["x", "y", ""]);
}

#[test]
fn empty_char_set_never_matches() {
    let set: [char; 0] = [];
    let segs: Vec<&str> = StrSplit::new("abc", &set[..]).segments();
    assert_eq!(segs, vec!["abc"]);
}

#[test]
fn exhausted_splitter_stays_exhausted() {
    let mut str_split = StrSplit::new("A", " ");
    assert_eq!(str_split.next(), Some("A"));
    assert_eq!(str_split.next(), None);
    assert_eq!(str_split.next(), None);
}

#[test]
fn segments_are_produced_one_at_a_time() {
    let mut str_split = StrSplit::new("a b", " ");
    assert_eq!(str_split.next(), Some("a"));
    assert_eq!(str_split.next(), Some("b"));
    assert_eq!(str_split.next(), None);
}

#[test]
fn repeated_construction_yields_identical_segments() {
    let first: Vec<&str> = StrSplit::new("w,x,,y", ",").segments();
    let second: Vec<&str> = StrSplit::new("w,x,,y", ",").segments();
    assert_eq!(first, second);
}

#[test]
fn joining_segments_with_delimiter_reconstructs_source() {
    let haystack = "one, two,, three,";
    let segs: Vec<&str> = StrSplit::new(haystack, ",").segments();
    assert_eq!(segs.join(","), haystack);
}

#[test]
fn segments_borrow_from_the_source_text() {
    let haystack = "left right";
    let seg: &str = {
        let delimiter = String::from(" ");
        let mut str_split = StrSplit::new(haystack, delimiter.as_str());
        str_split.next().unwrap()
    };
    assert_eq!(seg, "left");
}

#[test]
fn until_char_with_absent_character_yields_whole_source() {
    assert_eq!(until_char("abc", 'z'), "abc");
}

#[test]
fn until_char_with_leading_character_yields_empty_segment() {
    assert_eq!(until_char("xabc", 'x'), "");
}

#[test]
fn until_char_on_empty_source_yields_empty_segment() {
    assert_eq!(until_char("", 'x'), "");
}
