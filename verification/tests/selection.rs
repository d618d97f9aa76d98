use score_cli::model::ExampleSpec;
use score_cli::select::{
    after_choice, after_confirm, is_all_filter, select_all, select_by_filter, select_lowered,
    select_named, select_picked, Farewell,
};

fn example(name: &str) -> ExampleSpec {
    ExampleSpec { name: name.to_string(), description: format!("about {}", name), apps: Vec::new() }
}

fn examples(names: &[&str]) -> Vec<ExampleSpec> {
    names.iter().map(|n| example(n)).collect()
}

#[test]
fn filter_all_selects_everything_in_discovery_order() {
    let found = examples(&["c", "a", "b"]);
    assert_eq!(select_by_filter(&found, "all").unwrap(), vec![0, 1, 2]);
}

#[test]
fn filter_all_ignores_letter_case() {
    let found = examples(&["a", "b"]);
    assert_eq!(select_by_filter(&found, "ALL").unwrap(), vec![0, 1]);
    assert_eq!(select_by_filter(&found, "All").unwrap(), vec![0, 1]);
    assert_eq!(select_by_filter(&found, "aLl").unwrap(), vec![0, 1]);
    assert!(is_all_filter("ALL"));
    assert!(is_all_filter("all"));
    assert!(!is_all_filter(" all"));
    assert!(!is_all_filter("al"));
    assert!(!is_all_filter("alll"));
}

#[test]
fn filter_all_with_blanks_is_a_name() {
    let found = examples(&["a", "all"]);
    assert_eq!(select_by_filter(&found, " all ").unwrap(), vec![1]);
    let without = examples(&["a"]);
    assert!(select_by_filter(&without, " all ").is_err());
}

#[test]
fn filter_all_on_nothing_selects_nothing() {
    assert_eq!(select_by_filter(&Vec::new(), "all").unwrap(), Vec::<usize>::new());
}

#[test]
fn filter_names_select_in_discovery_order() {
    let found = examples(&["bar", "baz", "foo"]);
    assert_eq!(select_by_filter(&found, "foo, bar").unwrap(), vec![0, 2]);
    assert_eq!(select_by_filter(&found, "bar,foo").unwrap(), vec![0, 2]);
    assert_eq!(select_by_filter(&found, "  foo  ,\tbar\n").unwrap(), vec![0, 2]);
}

#[test]
fn filter_names_match_exactly() {
    let found = examples(&["foo", "Foo", "foo2", "fo"]);
    assert_eq!(select_by_filter(&found, "foo").unwrap(), vec![0]);
    assert_eq!(select_by_filter(&found, "Foo,fo").unwrap(), vec![1, 3]);
}

#[test]
fn filter_selects_every_example_of_a_repeated_name() {
    let found = examples(&["x", "y", "x"]);
    assert_eq!(select_by_filter(&found, "x").unwrap(), vec![0, 2]);
    assert_eq!(select_by_filter(&found, "x,x").unwrap(), vec![0, 2]);
}

#[test]
fn filter_skips_names_that_do_not_exist() {
    let found = examples(&["foo", "bar"]);
    assert_eq!(select_by_filter(&found, "nope, bar").unwrap(), vec![1]);
}

#[test]
fn filter_without_match_fails_with_all_names() {
    let found = examples(&["one", "two", "three"]);
    let error = select_by_filter(&found, "foo, bar").unwrap_err();
    assert_eq!(error.requested, "foo, bar");
    assert_eq!(error.available, vec!["one", "two", "three"]);
    let empty = select_by_filter(&found, "").unwrap_err();
    assert_eq!(empty.requested, "");
    assert_eq!(empty.available, vec!["one", "two", "three"]);
}

#[test]
fn empty_piece_matches_an_example_without_name() {
    let found = examples(&["", "a"]);
    assert_eq!(select_by_filter(&found, "a,").unwrap(), vec![0, 1]);
}

#[test]
fn select_lowered_goes_by_the_lowered_form_it_is_given() {
    let found = examples(&["a", "b"]);
    assert_eq!(select_lowered(&found, "b", "all").unwrap(), vec![0, 1]);
    assert_eq!(select_lowered(&found, "b", "b").unwrap(), vec![1]);
    assert!(select_lowered(&found, "all", "ALL").is_err());
}

#[test]
fn select_all_counts_up() {
    assert_eq!(select_all(0), Vec::<usize>::new());
    assert_eq!(select_all(4), vec![0, 1, 2, 3]);
}

#[test]
fn select_named_takes_trimmed_names_as_given() {
    let found = examples(&["a", "b", "c"]);
    let wanted: Vec<Vec<char>> = vec![vec!['c'], vec!['a']];
    assert_eq!(select_named(&found, &wanted), vec![0, 2]);
    assert_eq!(select_named(&found, &Vec::new()), Vec::<usize>::new());
}

#[test]
fn select_picked_orders_and_cleans_the_ticks() {
    assert_eq!(select_picked(4, &vec![3, 1]), vec![1, 3]);
    assert_eq!(select_picked(4, &vec![2, 2, 0, 2]), vec![0, 2]);
    assert_eq!(select_picked(2, &vec![5, 1, 2]), vec![1]);
    assert_eq!(select_picked(0, &vec![0]), Vec::<usize>::new());
}

#[test]
fn confirm_refused_ends_the_session() {
    assert_eq!(after_confirm(true), None);
    assert_eq!(after_confirm(false), Some(Farewell::Declined));
}

#[test]
fn choice_of_nothing_ends_the_session() {
    assert_eq!(after_choice(3, &Vec::new()), Err(Farewell::NothingSelected));
    assert_eq!(after_choice(3, &vec![7]), Err(Farewell::NothingSelected));
    assert_eq!(after_choice(3, &vec![2, 0]), Ok(vec![0, 2]));
}
