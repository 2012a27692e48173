//! The fixed log record and span the demo emits, checked value by value.

use otel_stdout_demo::attrs::attrs_match;
use otel_stdout_demo::attrs::Attr;
use otel_stdout_demo::attrs::AttrValue;
use otel_stdout_demo::logs::emit_log;
use otel_stdout_demo::logs::Severity;
use otel_stdout_demo::pipeline::service_resource;
use otel_stdout_demo::spans::emit_span;
use otel_stdout_demo::spans::SpanIds;
use otel_stdout_demo::spans::SpanStatus;

fn text_attr(key: &str, value: &str) -> Attr {
    Attr { key: key.to_string(), value: AttrValue::Text(value.to_string()) }
}

#[test]
fn emit_log_record_is_the_fixture() {
    let r = emit_log();
    assert_eq!(r.name, "function-emit-log-my-name");
    assert_eq!(r.target, "function-emit-log-my-target");
    assert_eq!(r.severity, Severity::Error);
    assert!(r.context.is_none());
    assert_eq!(r.attrs.len(), 3);
    assert_eq!(r.attrs[0].key, "event_id");
    assert_eq!(r.attrs[0].value, AttrValue::Int(20));
    assert_eq!(r.attrs[1].key, "user_name");
    assert_eq!(
        r.attrs[1].value,
        AttrValue::Text("function-emit-log-my-target-user-name".to_string())
    );
    assert_eq!(r.attrs[2].key, "user_email");
    assert_eq!(r.attrs[2].value, AttrValue::Text("function-emit-log-my-user-email".to_string()));
}

#[test]
fn emit_span_has_one_event_one_attribute_and_valid_ids() {
    let e = emit_span(SpanIds { trace_id: 0x9539f563bbf57a7abe51081ec0b47592, span_id: 0x3304d306a2c81b88 });
    assert_eq!(e.span.name, "example-span");
    assert_eq!(e.span.attrs.len(), 1);
    assert_eq!(e.span.attrs[0].key, "my-attribute");
    assert_eq!(e.span.attrs[0].value, AttrValue::Text("my-value".to_string()));
    assert_eq!(e.span.events.len(), 1);
    assert_eq!(e.span.events[0].name, "example-event-name");
    assert_eq!(e.span.events[0].attrs.len(), 1);
    assert_eq!(e.span.events[0].attrs[0].key, "event_attribute1");
    assert_eq!(e.span.events[0].attrs[0].value, AttrValue::Text("event_value1".to_string()));
    assert_ne!(e.span.ids.trace_id, 0);
    assert_ne!(e.span.ids.span_id, 0);
    assert!(e.span.parent_span_id.is_none());
    assert_eq!(e.span.status, SpanStatus::Unset);
}

#[test]
fn emit_span_scope_is_named_and_versioned() {
    let e = emit_span(SpanIds { trace_id: 5, span_id: 6 });
    assert_eq!(e.span.scope.name, "stdout-example");
    assert_eq!(e.span.scope.version, "v1");
    assert_eq!(e.span.scope.attrs.len(), 1);
    assert_eq!(e.span.scope.attrs[0].key, "scope_key");
    assert_eq!(e.span.scope.attrs[0].value, AttrValue::Text("scope_value".to_string()));
}

#[test]
fn emit_span_record_carries_the_span_identifiers() {
    let ids = SpanIds { trace_id: 7, span_id: 9 };
    let e = emit_span(ids);
    assert_eq!(e.record.context, Some(ids));
    assert_eq!(e.record.context.unwrap().trace_id, e.span.ids.trace_id);
    assert_eq!(e.record.context.unwrap().span_id, e.span.ids.span_id);
    assert_eq!(e.record.name, "function-emit-span-my-name");
    assert_eq!(e.record.target, "function-emit-span-my-target");
    assert_eq!(e.record.severity, Severity::Error);
    assert_eq!(e.record.attrs.len(), 3);
    assert_eq!(
        e.record.attrs[1].value,
        AttrValue::Text("function-emit-span-my-target-user-name".to_string())
    );
    assert_eq!(
        e.record.attrs[2].value,
        AttrValue::Text("function-emit-span-my-user-email".to_string())
    );
}

#[test]
fn service_resource_names_the_service() {
    let r = service_resource();
    assert_eq!(r.len(), 1);
    assert_eq!(r[0].key, "service.name");
    assert_eq!(r[0].value, AttrValue::Text("demo-rust-opentelemetry-stdout".to_string()));
}

#[test]
fn attribute_sets_match_regardless_of_order() {
    let a = vec![text_attr("name", "apple"), text_attr("color", "green")];
    let b = vec![text_attr("color", "green"), text_attr("name", "apple")];
    assert!(attrs_match(&a, &b));
}

#[test]
fn attribute_sets_with_different_values_do_not_match() {
    let a = vec![text_attr("name", "apple"), text_attr("color", "green")];
    let b = vec![text_attr("name", "apple"), text_attr("color", "red")];
    assert!(!attrs_match(&a, &b));
    let c = vec![text_attr("name", "apple")];
    assert!(!attrs_match(&a, &c));
    let d = vec![
        Attr { key: "event_id".to_string(), value: AttrValue::Int(20) },
        Attr { key: "name".to_string(), value: AttrValue::Text("apple".to_string()) },
    ];
    assert!(!attrs_match(&a, &d));
}
