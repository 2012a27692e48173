//! Counter and histogram aggregation over the demo's fixed observations.

use otel_stdout_demo::attrs::attrs_match;
use otel_stdout_demo::attrs::Attr;
use otel_stdout_demo::attrs::AttrValue;
use otel_stdout_demo::metrics::aggregate_counter;
use otel_stdout_demo::metrics::aggregate_histogram;
use otel_stdout_demo::metrics::emit_metrics;
use otel_stdout_demo::metrics::Measurement;

fn text_attr(key: &str, value: &str) -> Attr {
    Attr { key: key.to_string(), value: AttrValue::Text(value.to_string()) }
}

fn fruit(name: &str, color: &str) -> Vec<Attr> {
    vec![text_attr("name", name), text_attr("color", color)]
}

#[test]
fn emit_metrics_names_and_observations() {
    let plan = emit_metrics();
    assert_eq!(plan.meter_name, "function-emit-metrics-meter");
    assert_eq!(plan.counter_name, "function-emit-metrics-counter");
    assert_eq!(plan.histogram_name, "function-emit-metrics-histogram");
    assert_eq!(plan.observations.len(), 5);
    let values: Vec<u64> = plan.observations.iter().map(|m| m.value).collect();
    assert_eq!(values, vec![1, 1, 2, 1, 11]);
    assert!(attrs_match(&plan.observations[0].attrs, &fruit("apple", "green")));
    assert!(attrs_match(&plan.observations[1].attrs, &fruit("apple", "green")));
    assert!(attrs_match(&plan.observations[2].attrs, &fruit("apple", "red")));
    assert!(attrs_match(&plan.observations[3].attrs, &fruit("banana", "yellow")));
    assert!(attrs_match(&plan.observations[4].attrs, &fruit("banana", "yellow")));
}

#[test]
fn counter_shows_three_points_with_cumulative_totals() {
    let plan = emit_metrics();
    let pts = aggregate_counter(&plan.observations);
    assert_eq!(pts.len(), 3);
    assert!(attrs_match(&pts[0].attrs, &fruit("apple", "green")));
    assert_eq!(pts[0].total, 2);
    assert!(attrs_match(&pts[1].attrs, &fruit("apple", "red")));
    assert_eq!(pts[1].total, 2);
    assert!(attrs_match(&pts[2].attrs, &fruit("banana", "yellow")));
    assert_eq!(pts[2].total, 12);
}

#[test]
fn histogram_shows_three_points_with_count_sum_min_max() {
    let plan = emit_metrics();
    let pts = aggregate_histogram(&plan.observations);
    assert_eq!(pts.len(), 3);
    assert!(attrs_match(&pts[0].attrs, &fruit("apple", "green")));
    assert_eq!((pts[0].count, pts[0].sum, pts[0].min, pts[0].max), (2, 2, 1, 1));
    assert!(attrs_match(&pts[1].attrs, &fruit("apple", "red")));
    assert_eq!((pts[1].count, pts[1].sum, pts[1].min, pts[1].max), (1, 2, 2, 2));
    assert!(attrs_match(&pts[2].attrs, &fruit("banana", "yellow")));
    assert_eq!((pts[2].count, pts[2].sum, pts[2].min, pts[2].max), (2, 12, 1, 11));
}

#[test]
fn histogram_buckets_count_the_observations() {
    let plan = emit_metrics();
    let pts = aggregate_histogram(&plan.observations);
    let mut expected_green = vec![0u64; 16];
    expected_green[1] = 2;
    assert_eq!(pts[0].buckets, expected_green);
    let mut expected_red = vec![0u64; 16];
    expected_red[1] = 1;
    assert_eq!(pts[1].buckets, expected_red);
    let mut expected_yellow = vec![0u64; 16];
    expected_yellow[1] = 1;
    expected_yellow[3] = 1;
    assert_eq!(pts[2].buckets, expected_yellow);
}

#[test]
fn histogram_bucket_boundaries_are_inclusive_above() {
    let ms = vec![
        Measurement { value: 0, attrs: fruit("apple", "green") },
        Measurement { value: 5, attrs: fruit("apple", "green") },
        Measurement { value: 10001, attrs: fruit("apple", "green") },
    ];
    let pts = aggregate_histogram(&ms);
    assert_eq!(pts.len(), 1);
    let mut expected = vec![0u64; 16];
    expected[0] = 1;
    expected[1] = 1;
    expected[15] = 1;
    assert_eq!(pts[0].buckets, expected);
}

#[test]
fn aggregation_of_no_observations_is_empty() {
    let ms: Vec<Measurement> = Vec::new();
    assert_eq!(aggregate_counter(&ms).len(), 0);
    assert_eq!(aggregate_histogram(&ms).len(), 0);
}

#[test]
fn grouping_matches_attribute_sets_not_their_order() {
    let ms = vec![
        Measurement { value: 3, attrs: vec![text_attr("name", "apple"), text_attr("color", "green")] },
        Measurement { value: 4, attrs: vec![text_attr("color", "green"), text_attr("name", "apple")] },
    ];
    let pts = aggregate_counter(&ms);
    assert_eq!(pts.len(), 1);
    assert_eq!(pts[0].total, 7);
    let hs = aggregate_histogram(&ms);
    assert_eq!(hs.len(), 1);
    assert_eq!((hs[0].count, hs[0].sum, hs[0].min, hs[0].max), (2, 7, 3, 4));
}

#[test]
fn points_appear_in_order_of_first_observation() {
    let ms = vec![
        Measurement { value: 1, attrs: fruit("banana", "yellow") },
        Measurement { value: 2, attrs: fruit("apple", "green") },
        Measurement { value: 3, attrs: fruit("banana", "yellow") },
    ];
    let pts = aggregate_counter(&ms);
    assert_eq!(pts.len(), 2);
    assert!(attrs_match(&pts[0].attrs, &fruit("banana", "yellow")));
    assert_eq!(pts[0].total, 4);
    assert!(attrs_match(&pts[1].attrs, &fruit("apple", "green")));
    assert_eq!(pts[1].total, 2);
}

#[test]
fn integer_attribute_values_distinguish_groups() {
    let ms = vec![
        Measurement { value: 5, attrs: vec![Attr { key: "id".to_string(), value: AttrValue::Int(1) }] },
        Measurement { value: 6, attrs: vec![Attr { key: "id".to_string(), value: AttrValue::Int(2) }] },
        Measurement { value: 7, attrs: vec![Attr { key: "id".to_string(), value: AttrValue::Int(1) }] },
    ];
    let pts = aggregate_counter(&ms);
    assert_eq!(pts.len(), 2);
    assert_eq!(pts[0].total, 12);
    assert_eq!(pts[1].total, 6);
}
