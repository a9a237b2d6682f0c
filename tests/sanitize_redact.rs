use file_processor_api::{redact_value, sanitize_message, JsonValue, MAX_MESSAGE_LEN};

fn text(s: &str) -> String {
    s.to_string()
}

fn object(entries: Vec<(&str, JsonValue)>) -> JsonValue {
    JsonValue::Object(entries.into_iter().map(|(k, v)| (k.to_string(), v)).collect())
}

fn string(s: &str) -> JsonValue {
    JsonValue::String(text(s))
}

fn is_placeholder(v: &JsonValue) -> bool {
    matches!(v, JsonValue::String(s) if s == "***REDACTED***")
}

#[test]
fn line_breaks_become_spaces() {
    let s = "a\nb\tc";
    assert_eq!(s.chars().count(), 5);
    assert_eq!(sanitize_message(s, MAX_MESSAGE_LEN), "a b c");
}

#[test]
fn carriage_return_becomes_space_and_other_controls_drop() {
    assert_eq!(sanitize_message("x\ry\u{7}z\u{9f}!", 1024), "x yz!");
}

#[test]
fn sanitize_is_idempotent() {
    for s in ["a\nb\tc", "\u{1}\u{2}abc\r\n", "plain", "", "\u{85}é\u{0}ü"] {
        let once = sanitize_message(s, 4);
        let twice = sanitize_message(&once, 4);
        assert_eq!(once, twice);
        assert!(!once.chars().any(|c| c.is_control()));
    }
}

#[test]
fn truncation_counts_characters() {
    let s = "ééééé";
    assert_eq!(sanitize_message(s, 3), "ééé");
    assert_eq!(sanitize_message(s, 3).chars().count(), 3);
    let long: String = std::iter::repeat('x').take(2000).collect();
    assert_eq!(sanitize_message(&long, MAX_MESSAGE_LEN).chars().count(), 1024);
}

#[test]
fn empty_message_stays_empty() {
    assert_eq!(sanitize_message("", 10), "");
    assert_eq!(sanitize_message("abc", 0), "");
}

#[test]
fn redact_replaces_sensitive_keys_at_any_depth() {
    let tree = object(vec![
        ("password", string("p")),
        ("user", string("bob")),
        (
            "nested",
            JsonValue::Array(vec![
                object(vec![("token", JsonValue::Number(text("42"))), ("keep", JsonValue::Bool(true))]),
                object(vec![("secret", object(vec![("x", JsonValue::Null)]))]),
            ]),
        ),
        ("Password", string("case matters")),
    ]);
    let r = redact_value(&tree);
    let JsonValue::Object(m) = &r else { panic!("object expected") };
    assert_eq!(m.len(), 4);
    assert!(is_placeholder(&m[0].1));
    assert!(matches!(&m[1].1, JsonValue::String(s) if s == "bob"));
    assert!(matches!(&m[3].1, JsonValue::String(s) if s == "case matters"));
    let JsonValue::Array(items) = &m[2].1 else { panic!("array expected") };
    let JsonValue::Object(first) = &items[0] else { panic!("object expected") };
    assert_eq!(first[0].0, "token");
    assert!(is_placeholder(&first[0].1));
    assert!(matches!(first[1].1, JsonValue::Bool(true)));
    let JsonValue::Object(second) = &items[1] else { panic!("object expected") };
    assert!(is_placeholder(&second[0].1));
}

#[test]
fn redact_twice_equals_once() {
    let tree = JsonValue::Array(vec![
        object(vec![("secret", string("s")), ("a", JsonValue::Number(text("1.5")))]),
        string("token"),
    ]);
    let once = redact_value(&tree);
    let twice = redact_value(&once);
    assert_eq!(format!("{:?}", once), format!("{:?}", twice));
}

#[test]
fn scalars_are_left_alone() {
    let r = redact_value(&string("password"));
    assert!(matches!(r, JsonValue::String(s) if s == "password"));
    assert!(matches!(redact_value(&JsonValue::Null), JsonValue::Null));
}
