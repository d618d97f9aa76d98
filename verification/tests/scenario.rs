use score_cli::model::ExampleSpec;
use score_cli::runner::{Directive, Event, Runner};
use score_cli::scan::{Answer, DirEntry, Request, Scanner};
use score_cli::select::select_by_filter;
use score_cli::session::{require_found, Session};

fn scan_single_file(name: &str, text: &str) -> Vec<ExampleSpec> {
    let mut scanner = Scanner::new("/root".to_string());
    scanner.supply(Answer::Opened);
    scanner.supply(Answer::Entry(DirEntry {
        path: format!("/root/{}", name),
        file_name: Some(name.to_string()),
        is_symlink: false,
        is_dir: false,
    }));
    if let Request::ReadFile { .. } = scanner.request() {
        scanner.supply(Answer::Text(text.to_string()));
    }
    scanner.supply(Answer::EndOfDir);
    scanner.finish().unwrap().unwrap()
}

fn play(example: &ExampleSpec, log: &mut Vec<String>) -> bool {
    let mut runner = Runner::new(example);
    loop {
        let event = match runner.directive() {
            Directive::Sleep { index, seconds } => {
                log.push(format!("{}: sleep {} {}", example.name, index, seconds));
                Event::Slept
            }
            Directive::Spawn { index, app } => {
                log.push(format!("{}: spawn {} {}", example.name, index, app.path));
                Event::Spawned
            }
            Directive::Wait { index, path } => {
                log.push(format!("{}: wait {} {}", example.name, index, path));
                Event::Exited { success: true }
            }
            Directive::Finished => return true,
            Directive::Failed(_) => return false,
        };
        runner.record(event);
    }
}

#[test]
fn single_descriptor_selected_by_name_runs_its_app_once() {
    let text = r#"{"name":"x","description":"d","apps":[{"path":"/bin/true","args":[],"env":{},"delay":0}]}"#;
    let examples = scan_single_file("a.score.json", text);
    assert!(require_found(&examples, "/root").is_ok());
    let selected = select_by_filter(&examples, "x").unwrap();
    assert_eq!(selected, vec![0]);
    let mut session = Session::new(selected);
    let mut log = Vec::new();
    while let Some(position) = session.next_example() {
        assert!(play(&examples[position], &mut log));
        session.close_example(Ok(()));
    }
    assert_eq!(log, vec!["x: spawn 1 /bin/true", "x: wait 1 /bin/true"]);
    assert!(matches!(session.verdict(), Some(Ok(()))));
}

#[test]
fn descriptor_array_selected_by_all_runs_one_after_the_other() {
    let text = r#"[
        {"name":"first","description":"","apps":[{"path":"/a","args":[],"env":{}},{"path":"/b","args":[],"env":{},"delay":2}]},
        {"name":"second","description":"","apps":[{"path":"/c","args":[],"env":{}}]}
    ]"#;
    let examples = scan_single_file("both.score.json", text);
    let selected = select_by_filter(&examples, "all").unwrap();
    assert_eq!(selected, vec![0, 1]);
    let mut session = Session::new(selected);
    let mut log = Vec::new();
    while let Some(position) = session.next_example() {
        assert!(play(&examples[position], &mut log));
        session.close_example(Ok(()));
    }
    assert_eq!(
        log,
        vec![
            "first: spawn 1 /a",
            "first: sleep 2 2",
            "first: spawn 2 /b",
            "first: wait 1 /a",
            "first: wait 2 /b",
            "second: spawn 1 /c",
            "second: wait 1 /c",
        ]
    );
}

#[test]
fn file_without_the_suffix_is_not_read() {
    let text = r#"{"name":"x","description":"d","apps":[]}"#;
    let examples = scan_single_file("a.json", text);
    assert!(examples.is_empty());
    assert!(require_found(&examples, "/root").is_err());
}
