//! Spans: timed records of one operation, with identity, attributes and
//! child events.
//!
//! The demo opens one span under a named, versioned instrumentation scope,
//! sets one span attribute, appends one timed event with one attribute, and
//! emits one log record while the span is open. That record must carry the
//! open span's trace and span identifiers.

use crate::attrs::keys_unique;
use crate::attrs::value_model;
use crate::attrs::Attr;
use crate::attrs::AttrValue;
use crate::attrs::ValueModel;
use crate::logs::event_record;
use crate::logs::LogRecord;
use crate::logs::Severity;
use vstd::prelude::*;

verus! {

/// The identifiers that correlate a signal to a span.
#[derive(Debug, Clone, Copy, PartialEq, Eq, Structural)]
pub struct SpanIds {
    pub trace_id: u128,
    pub span_id: u64,
}

/// Valid identifiers are non-empty: an all-zero trace or span identifier
/// denotes "no span".
pub open spec fn span_ids_valid(ids: SpanIds) -> bool {
    ids.trace_id != 0 && ids.span_id != 0
}

/// A timed event recorded inside a span.
#[derive(Debug, PartialEq)]
pub struct SpanEvent {
    pub name: String,
    pub attrs: Vec<Attr>,
}

/// The named, versioned instrumentation scope a tracer is created under.
#[derive(Debug, PartialEq)]
pub struct ScopeInfo {
    pub name: String,
    pub version: String,
    pub attrs: Vec<Attr>,
}

/// A span's status at close time.
#[derive(Debug, Clone, Copy, PartialEq, Eq, Structural)]
pub enum SpanStatus {
    Unset,
    Okay,
    Errored,
}

/// A completed span, as handed to the tracer provider for export.
#[derive(Debug, PartialEq)]
pub struct Span {
    pub name: String,
    pub ids: SpanIds,
    pub parent_span_id: Option<u64>,
    pub scope: ScopeInfo,
    pub attrs: Vec<Attr>,
    pub events: Vec<SpanEvent>,
    pub status: SpanStatus,
}

/// What emitting the demo span produces: the span itself and the log record
/// emitted inside its scope.
#[derive(Debug, PartialEq)]
pub struct SpanEmission {
    pub span: Span,
    pub record: LogRecord,
}

/// The fixed span the demo emits, under the identifiers the tracer drew for
/// it: a root span with exactly one attribute and exactly one event carrying
/// exactly one attribute, status unset, under the versioned scope with its
/// one scope attribute. The log record emitted while the span is open
/// carries the same trace and span identifiers as the span.
pub fn emit_span(ids: SpanIds) -> (r: SpanEmission)
    requires
        span_ids_valid(ids),
    ensures
        r.span.ids == ids,
        span_ids_valid(r.span.ids),
        r.span.name@ == "example-span"@,
        r.span.parent_span_id is None,
        r.span.status == SpanStatus::Unset,
        r.span.scope.name@ == "stdout-example"@,
        r.span.scope.version@ == "v1"@,
        r.span.scope.attrs@.len() == 1,
        r.span.scope.attrs@[0].key@ == "scope_key"@,
        value_model(r.span.scope.attrs@[0].value) == ValueModel::Text("scope_value"@),
        keys_unique(r.span.scope.attrs@),
        r.span.attrs@.len() == 1,
        r.span.attrs@[0].key@ == "my-attribute"@,
        value_model(r.span.attrs@[0].value) == ValueModel::Text("my-value"@),
        keys_unique(r.span.attrs@),
        r.span.events@.len() == 1,
        r.span.events@[0].name@ == "example-event-name"@,
        r.span.events@[0].attrs@.len() == 1,
        r.span.events@[0].attrs@[0].key@ == "event_attribute1"@,
        value_model(r.span.events@[0].attrs@[0].value) == ValueModel::Text("event_value1"@),
        keys_unique(r.span.events@[0].attrs@),
        r.record.context == Some(ids),
        r.record.name@ == "function-emit-span-my-name"@,
        r.record.target@ == "function-emit-span-my-target"@,
        r.record.severity == Severity::Error,
        keys_unique(r.record.attrs@),
        r.record.attrs@.len() == 3,
        r.record.attrs@[0].key@ == "event_id"@,
        value_model(r.record.attrs@[0].value) == ValueModel::Int(20),
        r.record.attrs@[1].key@ == "user_name"@,
        value_model(r.record.attrs@[1].value) == ValueModel::Text(
            "function-emit-span-my-target-user-name"@,
        ),
        r.record.attrs@[2].key@ == "user_email"@,
        value_model(r.record.attrs@[2].value) == ValueModel::Text(
            "function-emit-span-my-user-email"@,
        ),
{
    let mut scope_attrs: Vec<Attr> = Vec::new();
    scope_attrs.push(
        Attr {
            key: String::from_str("scope_key"),
            value: AttrValue::Text(String::from_str("scope_value")),
        },
    );
    let scope = ScopeInfo {
        name: String::from_str("stdout-example"),
        version: String::from_str("v1"),
        attrs: scope_attrs,
    };
    let mut span_attrs: Vec<Attr> = Vec::new();
    span_attrs.push(
        Attr {
            key: String::from_str("my-attribute"),
            value: AttrValue::Text(String::from_str("my-value")),
        },
    );
    let mut event_attrs: Vec<Attr> = Vec::new();
    event_attrs.push(
        Attr {
            key: String::from_str("event_attribute1"),
            value: AttrValue::Text(String::from_str("event_value1")),
        },
    );
    let mut events: Vec<SpanEvent> = Vec::new();
    events.push(SpanEvent { name: String::from_str("example-event-name"), attrs: event_attrs });
    let record = event_record(
        "function-emit-span-my-name",
        "function-emit-span-my-target",
        "function-emit-span-my-target-user-name",
        "function-emit-span-my-user-email",
        Some(ids),
    );
    let span = Span {
        name: String::from_str("example-span"),
        ids,
        parent_span_id: None,
        scope,
        attrs: span_attrs,
        events,
        status: SpanStatus::Unset,
    };
    SpanEmission { span, record }
}

} // verus!
