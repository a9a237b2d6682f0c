use file_processor_api::{
    Actor, Component, ErrorEvent, Flow, HandlerError, InMemoryBufferManager, JsonValue, LogEvent,
    Reply, Severity, Step,
};

fn text(s: &str) -> String {
    s.to_string()
}

fn object(entries: Vec<(&str, JsonValue)>) -> JsonValue {
    JsonValue::Object(entries.into_iter().map(|(k, v)| (k.to_string(), v)).collect())
}

fn valid_log_event() -> LogEvent {
    LogEvent {
        event_id: 1,
        timestamp_micros: 0,
        message: text("info"),
        context: object(vec![("a", JsonValue::Number(text("1")))]),
        info_id: None,
        user_id: Some(text("test_user")),
        session_id: Some(text("test_session")),
        request_id: Some(text("test_request")),
    }
}

fn valid_error_event(sev: Severity) -> ErrorEvent {
    ErrorEvent {
        event_id: 2,
        timestamp_micros: 0,
        severity: sev,
        component: Component::C,
        actor: Actor::U,
        code: 1,
        message: text("valid"),
        context: object(vec![("key", JsonValue::String(text("value")))]),
        stack_trace: None,
        user_id: Some(text("test_user")),
        session_id: Some(text("test_session")),
        request_id: Some(text("test_request")),
    }
}

/// What a caller did while driving one event, and what the call returned.
struct Trace {
    steps: Vec<&'static str>,
    result: Result<(), HandlerError>,
}

fn name(s: &Step) -> &'static str {
    match s {
        Step::Buffer => "buffer",
        Step::InsertMessage => "insert_message",
        Step::InsertError => "insert_error",
        Step::WriteLog => "write_jsonl",
        Step::WriteFallback => "write_temp",
        Step::Finish(_) => "finish",
    }
}

/// Drives a flow to its end, answering each step with `reply`.
fn drive(start: (Flow, Step), reply: &mut dyn FnMut(&Step) -> Reply) -> Trace {
    let (mut flow, mut step) = start;
    let mut steps = Vec::new();
    loop {
        if let Step::Finish(result) = step {
            return Trace { steps, result };
        }
        steps.push(name(&step));
        let r = reply(&step);
        let (f, s) = flow.advance(r);
        flow = f;
        step = s;
    }
}

fn all_succeed(_: &Step) -> Reply {
    Reply::Done
}

#[test]
fn errorhandler_log_event_success() {
    let mut evt = valid_log_event();
    let t = drive(Flow::begin_info(&mut evt), &mut all_succeed);
    assert!(t.result.is_ok());
    assert_eq!(t.steps, vec!["buffer", "write_jsonl"]);
}

#[test]
fn errorhandler_log_event_empty_message() {
    let mut evt = valid_log_event();
    evt.message.clear();
    let t = drive(Flow::begin_info(&mut evt), &mut all_succeed);
    assert!(matches!(t.result, Err(HandlerError::Validation(_))));
    assert!(t.steps.is_empty());
}

#[test]
fn errorhandler_log_error_all_severities() {
    for sev in [Severity::ES, Severity::EM, Severity::WS, Severity::WM] {
        let mut evt = valid_error_event(sev);
        let t = drive(Flow::begin_error(&mut evt), &mut all_succeed);
        assert!(t.result.is_ok());
        if sev == Severity::WM {
            assert_eq!(t.steps, vec!["buffer", "write_jsonl"]);
        } else {
            assert_eq!(t.steps, vec!["buffer", "insert_message", "insert_error", "write_jsonl"]);
        }
    }
}

#[test]
fn errorhandler_log_error_db_fail_fallback() {
    let mut evt = valid_error_event(Severity::ES);
    let t = drive(Flow::begin_error(&mut evt), &mut |s: &Step| match s {
        Step::InsertError => Reply::Failed(HandlerError::Db(text("no rows returned"))),
        _ => Reply::Done,
    });
    assert!(matches!(t.result, Err(HandlerError::Db(_))));
    assert_eq!(t.steps, vec!["buffer", "insert_message", "insert_error", "write_temp"]);
}

#[test]
fn errorhandler_log_error_message_fail_fallback() {
    let mut evt = valid_error_event(Severity::ES);
    let t = drive(Flow::begin_error(&mut evt), &mut |s: &Step| match s {
        Step::InsertMessage => Reply::Failed(HandlerError::Db(text("no rows returned"))),
        _ => Reply::Done,
    });
    assert!(matches!(t.result, Err(HandlerError::Db(_))));
    assert_eq!(t.steps, vec!["buffer", "insert_message", "write_temp"]);
}

#[test]
fn errorhandler_log_error_validation_fails_on_empty_message() {
    let mut evt = valid_error_event(Severity::ES);
    evt.message.clear();
    let t = drive(Flow::begin_error(&mut evt), &mut all_succeed);
    assert!(matches!(t.result, Err(HandlerError::Validation(_))));
    assert!(t.steps.is_empty());
}

#[test]
fn errorhandler_log_error_db_failure_falls_back_to_file() {
    let mut evt = valid_error_event(Severity::ES);
    let t = drive(Flow::begin_error(&mut evt), &mut |s: &Step| match s {
        Step::InsertError => Reply::Failed(HandlerError::Db(text("no rows returned"))),
        _ => Reply::Done,
    });
    assert!(matches!(t.result, Err(HandlerError::Db(_))));
    assert_eq!(t.steps.iter().filter(|s| **s == "write_temp").count(), 1);
}

#[test]
fn disk_full_event_goes_to_fallback_file_once() {
    let mut evt = valid_error_event(Severity::ES);
    evt.message = text("disk full");
    let mut fallback_lines: Vec<String> = Vec::new();
    let t = {
        let evt_message = evt.message.clone();
        drive(Flow::begin_error(&mut evt), &mut |s: &Step| match s {
            Step::InsertError => Reply::Failed(HandlerError::Db(text("insert failed"))),
            Step::WriteFallback => {
                fallback_lines.push(evt_message.clone());
                Reply::Done
            }
            _ => Reply::Done,
        })
    };
    assert_eq!(evt.message, "disk full");
    assert_eq!(fallback_lines, vec![text("disk full")]);
    assert!(matches!(t.result, Err(HandlerError::Db(_))));
}

#[test]
fn fallback_failure_keeps_the_store_error() {
    let mut evt = valid_error_event(Severity::EM);
    let t = drive(Flow::begin_error(&mut evt), &mut |s: &Step| match s {
        Step::InsertMessage => Reply::Failed(HandlerError::Db(text("down"))),
        Step::WriteFallback => Reply::Failed(HandlerError::Io(text("disk"))),
        _ => Reply::Done,
    });
    match t.result {
        Err(HandlerError::Db(m)) => assert_eq!(m, "down"),
        _ => panic!("expected a store error"),
    }
}

#[test]
fn log_write_errors_pass_through_unchanged() {
    let mut evt = valid_error_event(Severity::WM);
    let t = drive(Flow::begin_error(&mut evt), &mut |s: &Step| match s {
        Step::WriteLog => Reply::Failed(HandlerError::RateLimited(text("Rate limit exceeded"))),
        _ => Reply::Done,
    });
    assert!(matches!(t.result, Err(HandlerError::RateLimited(_))));
    let mut evt = valid_error_event(Severity::WS);
    let t = drive(Flow::begin_error(&mut evt), &mut |s: &Step| match s {
        Step::WriteLog => Reply::Failed(HandlerError::Io(text("broken pipe"))),
        _ => Reply::Done,
    });
    assert!(matches!(t.result, Err(HandlerError::Io(_))));
}

#[test]
fn message_of_control_characters_only_is_refused() {
    let mut evt = valid_error_event(Severity::ES);
    evt.message = text("\u{1}\u{2}");
    let t = drive(Flow::begin_error(&mut evt), &mut all_succeed);
    assert!(matches!(t.result, Err(HandlerError::Validation(_))));
}

#[test]
fn accepted_event_is_sanitised_and_redacted() {
    let mut evt = valid_error_event(Severity::ES);
    evt.message = text("a\nb\tc");
    evt.context = object(vec![
        ("password", JsonValue::String(text("hunter2"))),
        ("user", JsonValue::String(text("bob"))),
    ]);
    let t = drive(Flow::begin_error(&mut evt), &mut all_succeed);
    assert!(t.result.is_ok());
    assert_eq!(evt.message, "a b c");
    match &evt.context {
        JsonValue::Object(m) => {
            assert_eq!(m[0].0, "password");
            assert!(matches!(&m[0].1, JsonValue::String(s) if s == "***REDACTED***"));
            assert!(matches!(&m[1].1, JsonValue::String(s) if s == "bob"));
        }
        _ => panic!("context must stay an object"),
    }
}

#[test]
fn buffered_error_events_are_kept_in_snapshot() {
    let mut buffers = InMemoryBufferManager::new(2);
    let mut evt = valid_error_event(Severity::ES);
    for code in 1..=3u32 {
        evt.code = code;
        buffers.buffer_error(&evt);
    }
    buffers.buffer_info(&valid_log_event());
    let (info, errors) = buffers.snapshot();
    assert_eq!(info.len(), 1);
    assert_eq!(info[0].message, "info");
    assert_eq!(errors.iter().map(|e| e.code).collect::<Vec<_>>(), vec![2, 3]);
    buffers.flush();
    let (info, errors) = buffers.snapshot();
    assert!(info.is_empty() && errors.is_empty());
}
