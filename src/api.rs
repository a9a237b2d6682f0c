use vstd::prelude::*;

use crate::json::JsonValue;
use crate::types::{Actor, Component, ErrorEvent, Severity};

verus! {

/// The service a request asks for. An unknown one carries the 128-bit value of
/// the UUID it was asked under.
#[derive(Clone, Debug, PartialEq, Eq, Hash)]
pub enum ServiceId {
    Compression,
    Encryption,
    Hashing,
    Metadata,
    Custom(String),
    Unknown(u128),
}

/// A request for a service, with its opaque payload.
#[derive(Clone, Debug)]
pub struct ApiRequest {
    pub service_id: ServiceId,
    pub payload: Vec<u8>,
}

impl ApiRequest {
    pub fn new(service_id: ServiceId, payload: Vec<u8>) -> (r: Self)
        ensures
            r.service_id == service_id,
            r.payload == payload,
    {
        ApiRequest { service_id, payload }
    }
}

/// What a service answered.
#[derive(Clone, Debug)]
pub struct ApiResponse {
    pub data: Vec<u8>,
    pub status: ApiStatus,
}

#[derive(Clone, Debug, PartialEq, Eq)]
pub enum ApiStatus {
    Success,
    Error(ApiError),
}

#[derive(Clone, Copy, Debug, PartialEq, Eq, Structural)]
pub enum ApiError {
    UnknownService,
    Unauthorized,
    Internal,
}

/// The code of the event logged when no handler serves a request.
pub const UNKNOWN_SERVICE_CODE: u32 = 1001;

/// The warning logged when no handler serves a request: warning minor, from
/// API routing, on the server's side, with the service's label under
/// `service_id` in its context.
pub fn unknown_service_event(service_label: String, event_id: u128, timestamp_micros: i64) -> (r:
    ErrorEvent)
    ensures
        r.event_id == event_id,
        r.timestamp_micros == timestamp_micros,
        r.severity == Severity::WM,
        r.component == Component::A,
        r.actor == Actor::S,
        r.code == UNKNOWN_SERVICE_CODE,
        r.message@ == "Unknown service requested"@,
        r.stack_trace is None,
        r.user_id is None,
        r.session_id is None,
        r.request_id is None,
        r.context matches JsonValue::Object(m) && m.len() == 1 && m[0].0@ == "service_id"@
            && m[0].1 == JsonValue::String(service_label),
{
    let mut entries: Vec<(String, JsonValue)> = Vec::new();
    entries.push((String::from_str("service_id"), JsonValue::String(service_label)));
    ErrorEvent {
        event_id,
        timestamp_micros,
        severity: Severity::WM,
        component: Component::A,
        actor: Actor::S,
        code: UNKNOWN_SERVICE_CODE,
        message: String::from_str("Unknown service requested"),
        context: JsonValue::Object(entries),
        stack_trace: None,
        user_id: None,
        session_id: None,
        request_id: None,
    }
}

/// The answer to a request, given what its handler returned.
pub fn respond(result: Result<Vec<u8>, ApiError>) -> (r: Result<ApiResponse, ApiError>)
    ensures
        match result {
            Ok(data) => r matches Ok(resp) && resp.data == data && resp.status == ApiStatus::Success,
            Err(e) => r == Err::<ApiResponse, ApiError>(e),
        },
{
    match result {
        Ok(data) => Ok(ApiResponse { data, status: ApiStatus::Success }),
        Err(e) => Err(e),
    }
}

} // verus!
