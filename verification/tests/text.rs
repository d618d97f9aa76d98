use score_cli::text::{
    chars_of, contains_chars, decimal_string, ends_with, join_with, same_chars, split_and_trim,
    trimmed,
};

fn chars(s: &str) -> Vec<char> {
    s.chars().collect()
}

#[test]
fn chars_of_keeps_every_character_in_order() {
    assert_eq!(chars_of(""), Vec::<char>::new());
    assert_eq!(chars_of("a,b"), vec!['a', ',', 'b']);
    assert_eq!(chars_of("é▶"), vec!['é', '▶']);
}

#[test]
fn same_chars_compares_content() {
    assert!(same_chars(&chars("abc"), &chars("abc")));
    assert!(!same_chars(&chars("abc"), &chars("abd")));
    assert!(!same_chars(&chars("abc"), &chars("ab")));
    assert!(same_chars(&chars(""), &chars("")));
}

#[test]
fn ends_with_tests_the_suffix() {
    assert!(ends_with(&chars("a.score.json"), &chars(".score.json")));
    assert!(ends_with(&chars(".score.json"), &chars(".score.json")));
    assert!(!ends_with(&chars("score.json"), &chars(".score.json")));
    assert!(!ends_with(&chars("a.score.json5"), &chars(".score.json")));
    assert!(ends_with(&chars("abc"), &chars("")));
}

#[test]
fn trimmed_removes_white_space_at_both_ends_only() {
    assert_eq!(trimmed(&chars("  foo bar \t\n")), chars("foo bar"));
    assert_eq!(trimmed(&chars("foo")), chars("foo"));
    assert_eq!(trimmed(&chars(" \t ")), chars(""));
    assert_eq!(trimmed(&chars("")), chars(""));
    assert_eq!(trimmed(&chars("\u{a0}x\u{2003}")), chars("x"));
}

#[test]
fn split_and_trim_gives_every_piece() {
    assert_eq!(split_and_trim("foo, bar", ','), vec![chars("foo"), chars("bar")]);
    assert_eq!(split_and_trim("", ','), vec![chars("")]);
    assert_eq!(split_and_trim(",", ','), vec![chars(""), chars("")]);
    assert_eq!(split_and_trim(" a ,, b ,", ','), vec![chars("a"), chars(""), chars("b"), chars("")]);
    assert_eq!(split_and_trim("one", ','), vec![chars("one")]);
}

#[test]
fn split_and_trim_agrees_with_the_standard_library() {
    for text in ["x", " x , y", ",,", "a,b,c", "  ", "a , b c ,d"] {
        let expected: Vec<Vec<char>> = text.split(',').map(|s| s.trim().chars().collect()).collect();
        assert_eq!(split_and_trim(text, ','), expected);
    }
}

#[test]
fn contains_chars_finds_exact_items() {
    let items = vec![chars("foo"), chars("bar")];
    assert!(contains_chars(&items, &chars("bar")));
    assert!(!contains_chars(&items, &chars("ba")));
    assert!(!contains_chars(&Vec::new(), &chars("")));
}

#[test]
fn join_with_puts_the_separator_between_items() {
    assert_eq!(join_with(&Vec::new(), ", "), "");
    assert_eq!(join_with(&vec!["a".to_string()], ", "), "a");
    assert_eq!(join_with(&vec!["a".to_string(), "b".to_string(), "c".to_string()], ", "), "a, b, c");
    assert_eq!(join_with(&vec!["".to_string(), "".to_string()], "-"), "-");
}

#[test]
fn decimal_string_writes_numerals() {
    assert_eq!(decimal_string(0), "0");
    assert_eq!(decimal_string(7), "7");
    assert_eq!(decimal_string(10), "10");
    assert_eq!(decimal_string(1234567890), "1234567890");
    assert_eq!(decimal_string(u64::MAX), "18446744073709551615");
}
