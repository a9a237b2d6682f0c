use file_processor_api::{
    respond, unknown_service_event, Actor, ApiError, ApiRequest, ApiStatus, Component, JsonValue,
    ServiceId, Severity,
};

#[test]
fn test_unknown_service_logs_error_event() {
    let evt = unknown_service_event("Unknown(7)".to_string(), 9, 123);
    assert!(evt.component == Component::A && evt.severity == Severity::WM && evt.code == 1001);
    assert_eq!(evt.actor, Actor::S);
    assert_eq!(evt.message, "Unknown service requested");
    assert_eq!(evt.event_id, 9);
    match &evt.context {
        JsonValue::Object(m) => {
            assert_eq!(m.len(), 1);
            assert_eq!(m[0].0, "service_id");
            assert!(matches!(&m[0].1, JsonValue::String(s) if s == "Unknown(7)"));
        }
        _ => panic!("context must be an object"),
    }
}

#[test]
fn handler_data_becomes_response() {
    let req = ApiRequest::new(ServiceId::Compression, vec![0xAA]);
    assert_eq!(req.payload, vec![0xAA]);
    let resp = respond(Ok(vec![1, 2, 3])).unwrap();
    assert_eq!(resp.data, vec![1, 2, 3]);
    assert_eq!(resp.status, ApiStatus::Success);
}

#[test]
fn handler_error_is_passed_on() {
    assert!(matches!(respond(Err(ApiError::UnknownService)), Err(ApiError::UnknownService)));
    assert!(matches!(respond(Err(ApiError::Internal)), Err(ApiError::Internal)));
}
