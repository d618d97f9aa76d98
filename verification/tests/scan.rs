use score_cli::scan::{
    classify_entry, is_score_file, Answer, DirEntry, EntryKind, LoadError, Request, Scanner,
};

fn entry(path: &str, is_symlink: bool, is_dir: bool) -> DirEntry {
    let file_name = path.rsplit('/').next().map(|n| n.to_string());
    DirEntry { path: path.to_string(), file_name, is_symlink, is_dir }
}

fn file(path: &str) -> Answer {
    Answer::Entry(entry(path, false, false))
}

fn dir(path: &str) -> Answer {
    Answer::Entry(entry(path, false, true))
}

fn link(path: &str, is_dir: bool) -> Answer {
    Answer::Entry(entry(path, true, is_dir))
}

fn asks_open(scanner: &Scanner, expected: &str) {
    match scanner.request() {
        Request::OpenDir { path } => assert_eq!(path, expected),
        other => panic!("unexpected request {:?}", other),
    }
}

fn asks_entry(scanner: &Scanner, expected: &str) {
    match scanner.request() {
        Request::NextEntry { dir } => assert_eq!(dir, expected),
        other => panic!("unexpected request {:?}", other),
    }
}

fn asks_file(scanner: &Scanner, expected: &str) {
    match scanner.request() {
        Request::ReadFile { path } => assert_eq!(path, expected),
        other => panic!("unexpected request {:?}", other),
    }
}

fn one(name: &str) -> String {
    format!(r#"{{"name":"{}","description":"d","apps":[]}}"#, name)
}

fn names(scanner: Scanner) -> Vec<String> {
    scanner.finish().unwrap().unwrap().into_iter().map(|e| e.name).collect()
}

#[test]
fn score_file_goes_by_the_suffix() {
    assert!(is_score_file("a.score.json"));
    assert!(is_score_file(".score.json"));
    assert!(is_score_file("x.y.score.json"));
    assert!(!is_score_file("a.json"));
    assert!(!is_score_file("a.score.json.bak"));
    assert!(!is_score_file("a.SCORE.JSON"));
    assert!(!is_score_file("ascore.json"));
    assert!(!is_score_file(""));
}

#[test]
fn entries_are_classified() {
    assert_eq!(classify_entry(&entry("/r/a.score.json", false, false)), EntryKind::Parse);
    assert_eq!(classify_entry(&entry("/r/a.txt", false, false)), EntryKind::Skip);
    assert_eq!(classify_entry(&entry("/r/sub", false, true)), EntryKind::Descend);
    assert_eq!(classify_entry(&entry("/r/sub.score.json", false, true)), EntryKind::Descend);
    let nameless = DirEntry { path: "/r/..".to_string(), file_name: None, is_symlink: false, is_dir: false };
    assert_eq!(classify_entry(&nameless), EntryKind::Skip);
}

#[test]
fn symbolic_links_are_always_skipped() {
    assert_eq!(classify_entry(&entry("/r/a.score.json", true, false)), EntryKind::Skip);
    assert_eq!(classify_entry(&entry("/r/sub", true, true)), EntryKind::Skip);
    assert_eq!(classify_entry(&entry("/r/b.score.json", true, true)), EntryKind::Skip);
}

#[test]
fn tree_without_descriptors_yields_nothing() {
    let mut scanner = Scanner::new("/r".to_string());
    asks_open(&scanner, "/r");
    scanner.supply(Answer::Opened);
    scanner.supply(file("/r/readme.md"));
    asks_entry(&scanner, "/r");
    scanner.supply(dir("/r/sub"));
    asks_open(&scanner, "/r/sub");
    scanner.supply(Answer::Opened);
    asks_entry(&scanner, "/r/sub");
    scanner.supply(file("/r/sub/x.json"));
    scanner.supply(Answer::EndOfDir);
    asks_entry(&scanner, "/r");
    scanner.supply(Answer::EndOfDir);
    assert!(matches!(scanner.request(), Request::Done));
    assert_eq!(names(scanner), Vec::<String>::new());
}

#[test]
fn empty_root_yields_nothing() {
    let mut scanner = Scanner::new("/r".to_string());
    scanner.supply(Answer::Opened);
    scanner.supply(Answer::EndOfDir);
    assert!(matches!(scanner.request(), Request::Done));
    assert_eq!(names(scanner), Vec::<String>::new());
}

#[test]
fn links_are_neither_read_nor_entered() {
    let mut scanner = Scanner::new("/r".to_string());
    scanner.supply(Answer::Opened);
    scanner.supply(link("/r/a.score.json", false));
    asks_entry(&scanner, "/r");
    scanner.supply(link("/r/sub", true));
    asks_entry(&scanner, "/r");
    scanner.supply(Answer::EndOfDir);
    assert_eq!(names(scanner), Vec::<String>::new());
}

#[test]
fn walk_is_depth_first_in_listing_order() {
    let mut scanner = Scanner::new("/r".to_string());
    scanner.supply(Answer::Opened);
    scanner.supply(file("/r/one.score.json"));
    asks_file(&scanner, "/r/one.score.json");
    scanner.supply(Answer::Text(one("one")));
    scanner.supply(dir("/r/sub"));
    scanner.supply(Answer::Opened);
    scanner.supply(file("/r/sub/two.score.json"));
    asks_file(&scanner, "/r/sub/two.score.json");
    scanner.supply(Answer::Text(format!("[{},{}]", one("two"), one("three"))));
    scanner.supply(dir("/r/sub/deep"));
    asks_open(&scanner, "/r/sub/deep");
    scanner.supply(Answer::Opened);
    asks_entry(&scanner, "/r/sub/deep");
    scanner.supply(Answer::EndOfDir);
    asks_entry(&scanner, "/r/sub");
    scanner.supply(Answer::EndOfDir);
    asks_entry(&scanner, "/r");
    scanner.supply(file("/r/last.score.json"));
    scanner.supply(Answer::Text(one("four")));
    scanner.supply(Answer::EndOfDir);
    assert_eq!(names(scanner), vec!["one", "two", "three", "four"]);
}

#[test]
fn unreadable_root_fails() {
    let mut scanner = Scanner::new("/nowhere".to_string());
    scanner.supply(Answer::OpenFailed);
    match scanner.request() {
        Request::Failed(LoadError::DirectoryUnreadable { path }) => assert_eq!(path, "/nowhere"),
        other => panic!("unexpected request {:?}", other),
    }
    match scanner.finish() {
        Some(Err(LoadError::DirectoryUnreadable { path })) => assert_eq!(path, "/nowhere"),
        other => panic!("unexpected end {:?}", other.map(|r| r.map(|v| v.len()))),
    }
}

#[test]
fn unreadable_entry_fails_with_the_directory() {
    let mut scanner = Scanner::new("/r".to_string());
    scanner.supply(Answer::Opened);
    scanner.supply(dir("/r/sub"));
    scanner.supply(Answer::Opened);
    scanner.supply(Answer::EntryFailed);
    match scanner.finish() {
        Some(Err(LoadError::DirectoryUnreadable { path })) => assert_eq!(path, "/r/sub"),
        _ => panic!("unexpected end"),
    }
}

#[test]
fn unreadable_file_fails_and_drops_what_was_found() {
    let mut scanner = Scanner::new("/r".to_string());
    scanner.supply(Answer::Opened);
    scanner.supply(file("/r/a.score.json"));
    scanner.supply(Answer::Text(one("a")));
    scanner.supply(file("/r/b.score.json"));
    scanner.supply(Answer::ReadFailed);
    scanner.supply(file("/r/c.score.json"));
    scanner.supply(Answer::EndOfDir);
    match scanner.finish() {
        Some(Err(LoadError::FileUnreadable { path })) => assert_eq!(path, "/r/b.score.json"),
        _ => panic!("unexpected end"),
    }
}

#[test]
fn malformed_descriptor_fails_with_path_and_detail() {
    let mut scanner = Scanner::new("/r".to_string());
    scanner.supply(Answer::Opened);
    scanner.supply(file("/r/bad.score.json"));
    scanner.supply(Answer::Text(r#"{"name":"x","apps":[]}"#.to_string()));
    match scanner.finish() {
        Some(Err(LoadError::MalformedDescriptor { path, detail })) => {
            assert_eq!(path, "/r/bad.score.json");
            assert_eq!(detail, "missing field `description`");
        }
        _ => panic!("unexpected end"),
    }
}

#[test]
fn text_that_is_no_json_fails_with_the_parser_message() {
    let mut scanner = Scanner::new("/r".to_string());
    scanner.supply(Answer::Opened);
    scanner.supply(file("/r/bad.score.json"));
    scanner.supply(Answer::Text("not json".to_string()));
    match scanner.finish() {
        Some(Err(LoadError::MalformedDescriptor { path, detail })) => {
            assert_eq!(path, "/r/bad.score.json");
            assert_eq!(detail, "expected ident at line 1 column 2");
        }
        _ => panic!("unexpected end"),
    }
}

#[test]
fn answers_that_were_not_asked_for_change_nothing() {
    let mut scanner = Scanner::new("/r".to_string());
    scanner.supply(Answer::Text(one("a")));
    scanner.supply(Answer::EndOfDir);
    scanner.supply(file("/r/a.score.json"));
    asks_open(&scanner, "/r");
    scanner.supply(Answer::Opened);
    scanner.supply(Answer::Opened);
    scanner.supply(Answer::ReadFailed);
    asks_entry(&scanner, "/r");
    assert!(scanner.finish().is_none());
}

#[test]
fn finished_scan_stays_finished() {
    let mut scanner = Scanner::new("/r".to_string());
    scanner.supply(Answer::Opened);
    scanner.supply(Answer::EndOfDir);
    scanner.supply(Answer::Opened);
    scanner.supply(file("/r/a.score.json"));
    scanner.supply(Answer::OpenFailed);
    assert!(matches!(scanner.request(), Request::Done));
}
