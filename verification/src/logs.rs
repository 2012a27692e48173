//! Structured log records.
//!
//! A log record carries a name, a target (scope) label, a severity, and an
//! attribute set; when it is emitted inside an open span's scope it also
//! carries that span's trace and span identifiers, and otherwise none.

use crate::attrs::keys_unique;
use crate::attrs::value_model;
use crate::attrs::Attr;
use crate::attrs::AttrValue;
use crate::attrs::ValueModel;
use crate::spans::SpanIds;
use vstd::prelude::*;

verus! {

/// A log severity level.
#[derive(Debug, Clone, Copy, PartialEq, Eq, Structural)]
pub enum Severity {
    Trace,
    Debug,
    Info,
    Warn,
    Error,
}

/// A structured log record, as handed to the logger provider for export.
#[derive(Debug, PartialEq)]
pub struct LogRecord {
    pub name: String,
    pub target: String,
    pub severity: Severity,
    pub attrs: Vec<Attr>,
    /// The identifiers of the enclosing span, when the record was emitted
    /// inside an open span's scope; `None` outside any span.
    pub context: Option<SpanIds>,
}

/// Builds the error-event record the demo emits: severity ERROR, a fixed
/// `event_id`, and the given user attributes, correlated to `context`.
pub(crate) fn event_record(
    name: &str,
    target: &str,
    user_name: &str,
    user_email: &str,
    context: Option<SpanIds>,
) -> (r: LogRecord)
    ensures
        r.name@ == name@,
        r.target@ == target@,
        r.severity == Severity::Error,
        r.context == context,
        keys_unique(r.attrs@),
        r.attrs@.len() == 3,
        r.attrs@[0].key@ == "event_id"@,
        value_model(r.attrs@[0].value) == ValueModel::Int(20),
        r.attrs@[1].key@ == "user_name"@,
        value_model(r.attrs@[1].value) == ValueModel::Text(user_name@),
        r.attrs@[2].key@ == "user_email"@,
        value_model(r.attrs@[2].value) == ValueModel::Text(user_email@),
{
    let mut attrs: Vec<Attr> = Vec::new();
    attrs.push(Attr { key: String::from_str("event_id"), value: AttrValue::Int(20) });
    attrs.push(
        Attr { key: String::from_str("user_name"), value: AttrValue::Text(String::from_str(user_name)) },
    );
    attrs.push(
        Attr {
            key: String::from_str("user_email"),
            value: AttrValue::Text(String::from_str(user_email)),
        },
    );
    proof {
        reveal_strlit("event_id");
        reveal_strlit("user_name");
        reveal_strlit("user_email");
        assert(("event_id"@).len() == 8);
        assert(("user_name"@).len() == 9);
        assert(("user_email"@).len() == 10);
    }
    LogRecord {
        name: String::from_str(name),
        target: String::from_str(target),
        severity: Severity::Error,
        attrs,
        context,
    }
}

/// The fixed log record the demo emits outside any span: severity ERROR,
/// fixed name and target, and exactly the three literal attributes, with no
/// span correlation.
pub fn emit_log() -> (r: LogRecord)
    ensures
        r.name@ == "function-emit-log-my-name"@,
        r.target@ == "function-emit-log-my-target"@,
        r.severity == Severity::Error,
        r.context is None,
        keys_unique(r.attrs@),
        r.attrs@.len() == 3,
        r.attrs@[0].key@ == "event_id"@,
        value_model(r.attrs@[0].value) == ValueModel::Int(20),
        r.attrs@[1].key@ == "user_name"@,
        value_model(r.attrs@[1].value) == ValueModel::Text(
            "function-emit-log-my-target-user-name"@,
        ),
        r.attrs@[2].key@ == "user_email"@,
        value_model(r.attrs@[2].value) == ValueModel::Text("function-emit-log-my-user-email"@),
{
    event_record(
        "function-emit-log-my-name",
        "function-emit-log-my-target",
        "function-emit-log-my-target-user-name",
        "function-emit-log-my-user-email",
        None,
    )
}

} // verus!
