//! Event persistence pipeline: input sanitisation and redaction, bounded
//! buffering, a guarded log writer and the severity-tiered routing between the
//! append-only log, the relational store and the fallback file.

mod api;
mod buffer;
mod guard;
mod json;
mod pipeline;
mod sanitize;
mod types;

pub use api::{
    respond, unknown_service_event, ApiError, ApiRequest, ApiResponse, ApiStatus, ServiceId,
    UNKNOWN_SERVICE_CODE,
};
pub use buffer::{
    keep_last, lemma_push_all_keeps_last, push_all, BoundedBuffer, InMemoryBufferManager,
};
pub use guard::{
    admissions, after_attempt, after_outcome, alerts, failure_runs, lemma_alert_once_per_run,
    lemma_rate_limit_window, window_elapsed, SmtpConfig, WriteGuard,
};
pub use json::{
    free_of_secrets, is_sensitive_key, lemma_redact_idempotent, lemma_redact_object_entries,
    lemma_redact_removes_secrets, model, placeholder, redact_value, redacted, Json, JsonValue,
};
pub use pipeline::{
    as_db_error, is_db_step, lemma_database_path, lemma_log_only_path, log_result, next, run,
    start, tier_of, Flow, Phase, Reply, Step, Tier,
};
pub use sanitize::{
    cleaned, free_of_control, is_control_char, lemma_sanitize_idempotent,
    lemma_sanitize_truncates, sanitize_message, sanitized,
};
pub use types::{
    error_text, same_error_event, same_log_event, same_tree, Actor, Component, ErrorEvent,
    HandlerError, LogEvent, Severity, MAX_MESSAGE_LEN,
};
