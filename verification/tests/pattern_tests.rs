use bms_downloader::pattern::{
    byte_len, first_span, is_cut, match_spans, replace_all, split_by_spans, substring,
    PatternError,
};

#[test]
fn spans_of_all_matches() {
    assert_eq!(match_spans("\\d+", "a12b345c"), Ok(vec![(1, 3), (4, 7)]));
    assert_eq!(match_spans("\\d+", "abc"), Ok(vec![]));
    assert_eq!(match_spans("\\d+", ""), Ok(vec![]));
}

#[test]
fn spans_are_byte_offsets() {
    assert_eq!(match_spans("b", "\u{3042}b"), Ok(vec![(3, 4)]));
}

#[test]
fn span_of_the_first_match() {
    assert_eq!(first_span("\\d+", "a12b345c"), Ok(Some((1, 3))));
    assert_eq!(first_span("\\d+", "abc"), Ok(None));
}

#[test]
fn matches_are_replaced() {
    assert_eq!(replace_all("<[^>]*>", "<b>bold</b> text", ""), Ok("bold text".to_string()));
    assert_eq!(replace_all("a", "banana", "o"), Ok("bonono".to_string()));
    assert_eq!(replace_all("x", "banana", "o"), Ok("banana".to_string()));
}

#[test]
fn bad_pattern_is_refused() {
    assert_eq!(match_spans("(", "text"), Err(PatternError));
    assert_eq!(first_span("[", "text"), Err(PatternError));
    assert_eq!(replace_all("(?P<n", "text", ""), Err(PatternError));
}

#[test]
fn byte_offsets_between_characters() {
    let text = "a\u{3042}b";
    assert_eq!(byte_len(text), 5);
    assert!(is_cut(text, 0, 1));
    assert!(is_cut(text, 1, 4));
    assert!(is_cut(text, 4, 5));
    assert!(is_cut(text, 5, 5));
    assert!(!is_cut(text, 1, 2));
    assert!(!is_cut(text, 3, 4));
    assert!(!is_cut(text, 4, 1));
    assert!(!is_cut(text, 4, 6));
    assert_eq!(substring(text, 1, 4), "\u{3042}");
    assert_eq!(substring(text, 0, 5), text);
    assert_eq!(substring(text, 4, 4), "");
}

#[test]
fn text_is_cut_at_the_spans() {
    let text = "see https://a.example/x and https://b.example/y !";
    let spans = vec![(4, 23), (28, 47)];
    assert_eq!(
        split_by_spans(text, &spans),
        vec!["see", "https://a.example/x", "and", "https://b.example/y", "!"]
    );
}

#[test]
fn blank_gaps_give_no_piece() {
    assert_eq!(split_by_spans("ab  cd ", &vec![(0, 2), (4, 6)]), vec!["ab", "cd"]);
    assert_eq!(split_by_spans("abcd", &vec![(0, 2), (2, 4)]), vec!["ab", "cd"]);
    assert_eq!(split_by_spans("  ", &vec![]), Vec::<String>::new());
    assert_eq!(split_by_spans("", &vec![]), Vec::<String>::new());
    assert_eq!(split_by_spans(" only text ", &vec![]), vec!["only text"]);
}

#[test]
fn spans_that_do_not_fit_are_passed_over() {
    // beyond the end, backwards, overlapping the one before, inside a character
    assert_eq!(split_by_spans("abcd", &vec![(2, 9)]), vec!["abcd"]);
    assert_eq!(split_by_spans("abcd", &vec![(3, 1)]), vec!["abcd"]);
    assert_eq!(split_by_spans("abcd", &vec![(0, 3), (2, 4)]), vec!["abc", "d"]);
    assert_eq!(split_by_spans("\u{3042}b", &vec![(1, 3)]), vec!["\u{3042}b"]);
}

#[test]
fn empty_span_gives_an_empty_piece() {
    assert_eq!(split_by_spans("ab", &vec![(1, 1)]), vec!["a", "", "b"]);
}
