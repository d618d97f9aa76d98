use score_cli::descriptor::{decode_app, decode_document, decode_example, parse_descriptor};

fn value(text: &str) -> serde_json::Value {
    serde_json::from_str(text).unwrap()
}

const APP: &str = r#"{"path":"/bin/echo","dir":"/tmp","args":["a","b c"],"env":{"K":"v","A":"1"},"delay":3}"#;

#[test]
fn app_with_every_field() {
    let app = decode_app(&value(APP)).unwrap();
    assert_eq!(app.path, "/bin/echo");
    assert_eq!(app.dir.as_deref(), Some("/tmp"));
    assert_eq!(app.args, vec!["a", "b c"]);
    let mut env = app.env.clone();
    env.sort();
    assert_eq!(env, vec![("A".to_string(), "1".to_string()), ("K".to_string(), "v".to_string())]);
    assert_eq!(app.delay, Some(3));
    assert_eq!(app.delay_secs(), 3);
}

#[test]
fn app_optional_fields_may_be_absent_or_null() {
    let absent = decode_app(&value(r#"{"path":"p","args":[],"env":{}}"#)).unwrap();
    assert_eq!(absent.dir, None);
    assert_eq!(absent.delay, None);
    assert_eq!(absent.delay_secs(), 0);
    assert!(absent.args.is_empty());
    assert!(absent.env.is_empty());
    let null = decode_app(&value(r#"{"path":"p","dir":null,"args":[],"env":{},"delay":null}"#)).unwrap();
    assert_eq!(null.dir, None);
    assert_eq!(null.delay, None);
}

#[test]
fn app_ignores_unknown_fields() {
    let app = decode_app(&value(r#"{"path":"p","args":[],"env":{},"extra":[1,2]}"#)).unwrap();
    assert_eq!(app.path, "p");
}

#[test]
fn app_missing_required_field_is_rejected() {
    assert_eq!(decode_app(&value(r#"{"args":[],"env":{}}"#)).unwrap_err(), "missing field `path`");
    assert_eq!(decode_app(&value(r#"{"path":"p","env":{}}"#)).unwrap_err(), "missing field `args`");
    assert_eq!(decode_app(&value(r#"{"path":"p","args":[]}"#)).unwrap_err(), "missing field `env`");
}

#[test]
fn app_field_of_wrong_shape_is_rejected() {
    let cases = [
        (r#"{"path":1,"args":[],"env":{}}"#, "invalid value for field `path`"),
        (r#"{"path":null,"args":[],"env":{}}"#, "invalid value for field `path`"),
        (r#"{"path":"p","dir":5,"args":[],"env":{}}"#, "invalid value for field `dir`"),
        (r#"{"path":"p","args":"a","env":{}}"#, "invalid value for field `args`"),
        (r#"{"path":"p","args":["a",1],"env":{}}"#, "invalid value for field `args`"),
        (r#"{"path":"p","args":[],"env":[]}"#, "invalid value for field `env`"),
        (r#"{"path":"p","args":[],"env":{"K":1}}"#, "invalid value for field `env`"),
        (r#"{"path":"p","args":[],"env":{},"delay":-1}"#, "invalid value for field `delay`"),
        (r#"{"path":"p","args":[],"env":{},"delay":1.5}"#, "invalid value for field `delay`"),
        (r#"{"path":"p","args":[],"env":{},"delay":"1"}"#, "invalid value for field `delay`"),
    ];
    for (text, complaint) in cases {
        assert_eq!(decode_app(&value(text)).unwrap_err(), complaint, "{}", text);
    }
}

#[test]
fn app_first_bad_field_is_reported() {
    assert_eq!(
        decode_app(&value(r#"{"dir":1,"args":2,"env":3,"delay":"x"}"#)).unwrap_err(),
        "missing field `path`"
    );
    assert_eq!(
        decode_app(&value(r#"{"path":"p","dir":1,"args":2,"env":3}"#)).unwrap_err(),
        "invalid value for field `dir`"
    );
}

#[test]
fn app_must_be_an_object() {
    assert_eq!(decode_app(&value("[]")).unwrap_err(), "expected an object");
    assert_eq!(decode_app(&value("\"p\"")).unwrap_err(), "expected an object");
    assert_eq!(decode_app(&value("null")).unwrap_err(), "expected an object");
}

#[test]
fn delay_takes_the_whole_range() {
    let zero = decode_app(&value(r#"{"path":"p","args":[],"env":{},"delay":0}"#)).unwrap();
    assert_eq!(zero.delay, Some(0));
    assert_eq!(zero.delay_secs(), 0);
    let max = decode_app(&value(r#"{"path":"p","args":[],"env":{},"delay":18446744073709551615}"#)).unwrap();
    assert_eq!(max.delay, Some(u64::MAX));
}

#[test]
fn example_with_apps_in_order() {
    let text = format!(r#"{{"name":"x","description":"d","apps":[{},{{"path":"second","args":[],"env":{{}}}}]}}"#, APP);
    let example = decode_example(&value(&text)).unwrap();
    assert_eq!(example.name, "x");
    assert_eq!(example.description, "d");
    assert_eq!(example.apps.len(), 2);
    assert_eq!(example.apps[0].path, "/bin/echo");
    assert_eq!(example.apps[1].path, "second");
}

#[test]
fn example_missing_or_bad_field_is_rejected() {
    assert_eq!(decode_example(&value(r#"{"description":"d","apps":[]}"#)).unwrap_err(), "missing field `name`");
    assert_eq!(decode_example(&value(r#"{"name":"x","apps":[]}"#)).unwrap_err(), "missing field `description`");
    assert_eq!(decode_example(&value(r#"{"name":"x","description":"d"}"#)).unwrap_err(), "missing field `apps`");
    assert_eq!(decode_example(&value(r#"{"name":"x","description":"d","apps":{}}"#)).unwrap_err(), "invalid value for field `apps`");
    assert_eq!(decode_example(&value(r#"{"name":7,"description":"d","apps":[]}"#)).unwrap_err(), "invalid value for field `name`");
    assert_eq!(decode_example(&value(r#"{"name":"x","description":"d","apps":[{"path":"p","env":{}}]}"#)).unwrap_err(), "missing field `args`");
    assert_eq!(decode_example(&value(r#"{"name":"x","description":"d","apps":[1]}"#)).unwrap_err(), "expected an object");
    assert_eq!(decode_example(&value("3")).unwrap_err(), "expected an object");
}

#[test]
fn document_object_yields_one_example() {
    let examples = decode_document(&value(r#"{"name":"x","description":"d","apps":[]}"#)).unwrap();
    assert_eq!(examples.len(), 1);
    assert_eq!(examples[0].name, "x");
}

#[test]
fn document_array_yields_each_item_in_order() {
    let text = r#"[{"name":"c","description":"","apps":[]},{"name":"a","description":"","apps":[]},{"name":"b","description":"","apps":[]}]"#;
    let examples = decode_document(&value(text)).unwrap();
    let names: Vec<&str> = examples.iter().map(|e| e.name.as_str()).collect();
    assert_eq!(names, vec!["c", "a", "b"]);
    assert_eq!(decode_document(&value("[]")).unwrap().len(), 0);
}

#[test]
fn document_array_with_a_bad_item_is_rejected_whole() {
    let text = r#"[{"name":"a","description":"","apps":[]},{"name":"b","apps":[]},{"description":"","apps":[]}]"#;
    assert_eq!(decode_document(&value(text)).unwrap_err(), "missing field `description`");
    assert_eq!(decode_document(&value(r#"[["x","d",[]]]"#)).unwrap_err(), "expected an object");
}

#[test]
fn descriptor_text_is_parsed_and_read() {
    let examples = parse_descriptor(r#" {"name":"x","description":"d","apps":[{"path":"/bin/true","args":[],"env":{},"delay":0}]} "#).unwrap();
    assert_eq!(examples.len(), 1);
    assert_eq!(examples[0].apps[0].path, "/bin/true");
    assert_eq!(examples[0].apps[0].delay, Some(0));
}

#[test]
fn descriptor_text_that_is_no_json_gives_the_parser_message() {
    let text = r#"{"name": "x","#;
    let expected = serde_json::from_str::<serde_json::Value>(text).unwrap_err().to_string();
    assert_eq!(parse_descriptor(text).unwrap_err(), expected);
    assert_eq!(parse_descriptor("").unwrap_err(), "EOF while parsing a value at line 1 column 0");
    assert_eq!(parse_descriptor("{} x").unwrap_err(), "trailing characters at line 1 column 4");
}

#[test]
fn descriptor_last_of_repeated_keys_counts() {
    let examples = parse_descriptor(r#"{"name":"first","name":"second","description":"d","apps":[]}"#).unwrap();
    assert_eq!(examples[0].name, "second");
}
