use vstd::prelude::*;

use crate::json::{redact_value, redacted, JsonValue};
use crate::sanitize::{sanitize_message, sanitized};

verus! {

/// Error severe, error minor, warning severe, warning minor.
#[derive(Clone, Copy, Debug, PartialEq, Eq, Structural)]
pub enum Severity {
    ES,
    EM,
    WS,
    WM,
}

/// The subsystem an event comes from: compression, hashing, encryption, API routing.
#[derive(Clone, Copy, Debug, PartialEq, Eq, Structural)]
pub enum Component {
    C,
    H,
    E,
    A,
}

/// The party responsible: user, server, network.
#[derive(Clone, Copy, Debug, PartialEq, Eq, Structural)]
pub enum Actor {
    U,
    S,
    N,
}

/// The longest message, in characters, that is ever persisted.
pub const MAX_MESSAGE_LEN: usize = 1024;

/// An informational event. The identifier is the 128-bit value of a UUID, the
/// timestamp counts microseconds since the Unix epoch.
#[derive(Debug)]
pub struct LogEvent {
    pub event_id: u128,
    pub timestamp_micros: i64,
    pub message: String,
    pub context: JsonValue,
    pub info_id: Option<String>,
    pub user_id: Option<String>,
    pub session_id: Option<String>,
    pub request_id: Option<String>,
}

/// A warning or error event.
#[derive(Debug)]
pub struct ErrorEvent {
    pub event_id: u128,
    pub timestamp_micros: i64,
    pub severity: Severity,
    pub component: Component,
    pub actor: Actor,
    pub code: u32,
    pub message: String,
    pub context: JsonValue,
    pub stack_trace: Option<JsonValue>,
    pub user_id: Option<String>,
    pub session_id: Option<String>,
    pub request_id: Option<String>,
}

/// The kind of failure a call into the pipeline reports.
#[derive(Debug)]
pub enum HandlerError {
    /// The event was refused before anything was done with it.
    Validation(String),
    /// Appending to a file failed.
    Io(String),
    /// The relational store failed; a fallback line was attempted.
    Db(String),
    /// The event could not be encoded as a line.
    Json(String),
    /// The guarded writer refused the write within its rate window.
    RateLimited(String),
}

/// The text that an error carries.
pub open spec fn error_text(e: HandlerError) -> String {
    match e {
        HandlerError::Validation(t) => t,
        HandlerError::Io(t) => t,
        HandlerError::Db(t) => t,
        HandlerError::Json(t) => t,
        HandlerError::RateLimited(t) => t,
    }
}

/// Two optional JSON trees with the same model.
pub open spec fn same_tree(a: Option<JsonValue>, b: Option<JsonValue>) -> bool {
    match (a, b) {
        (Some(x), Some(y)) => x@ == y@,
        (None, None) => true,
        _ => false,
    }
}

/// Two informational events that agree on every field, trees by their model.
pub open spec fn same_log_event(a: LogEvent, b: LogEvent) -> bool {
    &&& a.event_id == b.event_id
    &&& a.timestamp_micros == b.timestamp_micros
    &&& a.message == b.message
    &&& a.context@ == b.context@
    &&& a.info_id == b.info_id
    &&& a.user_id == b.user_id
    &&& a.session_id == b.session_id
    &&& a.request_id == b.request_id
}

/// Two error events that agree on every field, trees by their model.
pub open spec fn same_error_event(a: ErrorEvent, b: ErrorEvent) -> bool {
    &&& a.event_id == b.event_id
    &&& a.timestamp_micros == b.timestamp_micros
    &&& a.severity == b.severity
    &&& a.component == b.component
    &&& a.actor == b.actor
    &&& a.code == b.code
    &&& a.message == b.message
    &&& a.context@ == b.context@
    &&& same_tree(a.stack_trace, b.stack_trace)
    &&& a.user_id == b.user_id
    &&& a.session_id == b.session_id
    &&& a.request_id == b.request_id
}

fn copy_text(s: &Option<String>) -> (r: Option<String>)
    ensures
        r == *s,
{
    match s {
        Some(t) => Some(t.clone()),
        None => None,
    }
}

impl Clone for LogEvent {
    fn clone(&self) -> (r: Self)
        ensures
            same_log_event(r, *self),
    {
        LogEvent {
            event_id: self.event_id,
            timestamp_micros: self.timestamp_micros,
            message: self.message.clone(),
            context: self.context.clone(),
            info_id: copy_text(&self.info_id),
            user_id: copy_text(&self.user_id),
            session_id: copy_text(&self.session_id),
            request_id: copy_text(&self.request_id),
        }
    }
}

impl Clone for ErrorEvent {
    fn clone(&self) -> (r: Self)
        ensures
            same_error_event(r, *self),
    {
        let stack_trace = match &self.stack_trace {
            Some(t) => Some(t.clone()),
            None => None,
        };
        ErrorEvent {
            event_id: self.event_id,
            timestamp_micros: self.timestamp_micros,
            severity: self.severity,
            component: self.component,
            actor: self.actor,
            code: self.code,
            message: self.message.clone(),
            context: self.context.clone(),
            stack_trace,
            user_id: copy_text(&self.user_id),
            session_id: copy_text(&self.session_id),
            request_id: copy_text(&self.request_id),
        }
    }
}

impl LogEvent {
    /// Cleans the message of control characters and cuts it to `max_len`
    /// characters; nothing else changes.
    pub fn sanitize_and_truncate_message(&mut self, max_len: usize)
        ensures
            final(self).message@ == sanitized(old(self).message@, max_len as nat),
            *final(self) == (LogEvent { message: final(self).message, ..*old(self) }),
    {
        self.message = sanitize_message(self.message.as_str(), max_len);
    }
}

impl ErrorEvent {
    /// Cleans the message of control characters and cuts it to `max_len`
    /// characters; nothing else changes.
    pub fn sanitize_and_truncate_message(&mut self, max_len: usize)
        ensures
            final(self).message@ == sanitized(old(self).message@, max_len as nat),
            *final(self) == (ErrorEvent { message: final(self).message, ..*old(self) }),
    {
        self.message = sanitize_message(self.message.as_str(), max_len);
    }

    /// Replaces the value of every sensitive key in the context and in the
    /// stack trace, at any depth, by the placeholder; nothing else changes.
    pub fn redact_sensitive_data(&mut self)
        ensures
            final(self).context@ == redacted(old(self).context@),
            final(self).stack_trace is Some == old(self).stack_trace is Some,
            old(self).stack_trace is Some ==> final(self).stack_trace->Some_0@ == redacted(
                old(self).stack_trace->Some_0@,
            ),
            *final(self) == (ErrorEvent {
                context: final(self).context,
                stack_trace: final(self).stack_trace,
                ..*old(self)
            }),
    {
        self.context = redact_value(&self.context);
        let trace = match &self.stack_trace {
            Some(t) => Some(redact_value(t)),
            None => None,
        };
        self.stack_trace = trace;
    }
}

} // verus!
