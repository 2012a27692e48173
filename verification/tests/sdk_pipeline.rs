//! The model held against the real SDK: the same observations driven
//! through in-memory exporters must aggregate exactly as the library's
//! verified aggregators say, and every provider must survive a second
//! shutdown.

use opentelemetry::metrics::MeterProvider;
use opentelemetry::trace::TraceContextExt;
use opentelemetry::trace::Tracer;
use opentelemetry::trace::TracerProvider;
use opentelemetry::InstrumentationScope;
use opentelemetry::KeyValue;
use opentelemetry_sdk::error::OTelSdkError;
use opentelemetry_sdk::logs::InMemoryLogExporter;
use opentelemetry_sdk::logs::SdkLoggerProvider;
use opentelemetry_sdk::metrics::data::AggregatedMetrics;
use opentelemetry_sdk::metrics::data::MetricData;
use opentelemetry_sdk::metrics::InMemoryMetricExporter;
use opentelemetry_sdk::metrics::PeriodicReader;
use opentelemetry_sdk::metrics::SdkMeterProvider;
use opentelemetry_sdk::trace::InMemorySpanExporter;
use opentelemetry_sdk::trace::SdkTracerProvider;
use otel_stdout_demo::attrs::Attr;
use otel_stdout_demo::attrs::AttrValue;
use otel_stdout_demo::metrics::aggregate_counter;
use otel_stdout_demo::metrics::aggregate_histogram;
use otel_stdout_demo::metrics::emit_metrics;
use otel_stdout_demo::spans::emit_span;
use otel_stdout_demo::spans::SpanIds;

fn to_key_values(attrs: &[Attr]) -> Vec<KeyValue> {
    attrs
        .iter()
        .map(|a| match &a.value {
            AttrValue::Text(s) => KeyValue::new(a.key.clone(), s.clone()),
            AttrValue::Int(i) => KeyValue::new(a.key.clone(), *i),
        })
        .collect()
}

fn attr_pairs<'a>(attrs: impl Iterator<Item = &'a KeyValue>) -> Vec<(String, String)> {
    let mut pairs: Vec<(String, String)> = attrs
        .map(|kv| (kv.key.as_str().to_string(), kv.value.as_str().to_string()))
        .collect();
    pairs.sort();
    pairs
}

fn model_pairs(attrs: &[Attr]) -> Vec<(String, String)> {
    let mut pairs: Vec<(String, String)> = attrs
        .iter()
        .map(|a| {
            let v = match &a.value {
                AttrValue::Text(s) => s.clone(),
                AttrValue::Int(i) => i.to_string(),
            };
            (a.key.clone(), v)
        })
        .collect();
    pairs.sort();
    pairs
}

#[test]
fn sdk_counter_matches_verified_aggregation() {
    let exporter = InMemoryMetricExporter::default();
    let provider = SdkMeterProvider::builder()
        .with_reader(PeriodicReader::builder(exporter.clone()).build())
        .build();
    let plan = emit_metrics();
    let meter = provider.meter_with_scope(
        InstrumentationScope::builder(plan.meter_name.clone()).build(),
    );
    let counter = meter.u64_counter(plan.counter_name.clone()).build();
    for m in &plan.observations {
        counter.add(m.value, &to_key_values(&m.attrs));
    }
    provider.force_flush().unwrap();
    let expected = aggregate_counter(&plan.observations);
    let finished = exporter.get_finished_metrics().unwrap();
    let mut seen = 0usize;
    for rm in &finished {
        for sm in rm.scope_metrics() {
            for metric in sm.metrics() {
                assert_eq!(metric.name(), "function-emit-metrics-counter");
                if let AggregatedMetrics::U64(MetricData::Sum(sum)) = metric.data() {
                    assert!(sum.is_monotonic());
                    for dp in sum.data_points() {
                        let pairs = attr_pairs(dp.attributes());
                        let matching: Vec<&otel_stdout_demo::metrics::CounterPoint> = expected
                            .iter()
                            .filter(|p| model_pairs(&p.attrs) == pairs)
                            .collect();
                        assert_eq!(matching.len(), 1);
                        assert_eq!(dp.value(), matching[0].total);
                        seen += 1;
                    }
                } else {
                    panic!("expected a u64 sum");
                }
            }
        }
    }
    assert_eq!(seen, expected.len());
    assert_eq!(seen, 3);
    provider.shutdown().unwrap();
}

#[test]
fn sdk_histogram_matches_verified_aggregation() {
    let exporter = InMemoryMetricExporter::default();
    let provider = SdkMeterProvider::builder()
        .with_reader(PeriodicReader::builder(exporter.clone()).build())
        .build();
    let plan = emit_metrics();
    let meter = provider.meter_with_scope(
        InstrumentationScope::builder(plan.meter_name.clone()).build(),
    );
    let histogram = meter.f64_histogram(plan.histogram_name.clone()).build();
    for m in &plan.observations {
        histogram.record(m.value as f64, &to_key_values(&m.attrs));
    }
    provider.force_flush().unwrap();
    let expected = aggregate_histogram(&plan.observations);
    let finished = exporter.get_finished_metrics().unwrap();
    let mut seen = 0usize;
    for rm in &finished {
        for sm in rm.scope_metrics() {
            for metric in sm.metrics() {
                assert_eq!(metric.name(), "function-emit-metrics-histogram");
                if let AggregatedMetrics::F64(MetricData::Histogram(hist)) = metric.data() {
                    for dp in hist.data_points() {
                        let pairs = attr_pairs(dp.attributes());
                        let matching: Vec<&otel_stdout_demo::metrics::HistogramPoint> = expected
                            .iter()
                            .filter(|p| model_pairs(&p.attrs) == pairs)
                            .collect();
                        assert_eq!(matching.len(), 1);
                        let p = matching[0];
                        assert_eq!(dp.count(), p.count);
                        assert_eq!(dp.sum(), p.sum as f64);
                        assert_eq!(dp.min(), Some(p.min as f64));
                        assert_eq!(dp.max(), Some(p.max as f64));
                        let sdk_buckets: Vec<u64> = dp.bucket_counts().collect();
                        assert_eq!(sdk_buckets, p.buckets);
                        let sdk_bounds: Vec<f64> = dp.bounds().collect();
                        assert_eq!(
                            sdk_bounds,
                            vec![
                                0.0, 5.0, 10.0, 25.0, 50.0, 75.0, 100.0, 250.0, 500.0, 750.0,
                                1000.0, 2500.0, 5000.0, 7500.0, 10000.0
                            ]
                        );
                        seen += 1;
                    }
                } else {
                    panic!("expected an f64 histogram");
                }
            }
        }
    }
    assert_eq!(seen, expected.len());
    assert_eq!(seen, 3);
    provider.shutdown().unwrap();
}

#[test]
fn sdk_span_matches_the_model_span() {
    let exporter = InMemorySpanExporter::default();
    let provider = SdkTracerProvider::builder().with_simple_exporter(exporter.clone()).build();
    let model = emit_span(SpanIds { trace_id: 1, span_id: 1 });
    let scope = InstrumentationScope::builder(model.span.scope.name.clone())
        .with_version(model.span.scope.version.clone())
        .with_attributes(to_key_values(&model.span.scope.attrs))
        .build();
    let tracer = provider.tracer_with_scope(scope);
    tracer.in_span(model.span.name.clone(), |cx| {
        let span = cx.span();
        for kv in to_key_values(&model.span.attrs) {
            span.set_attribute(kv);
        }
        span.add_event(
            model.span.events[0].name.clone(),
            to_key_values(&model.span.events[0].attrs),
        );
    });
    provider.force_flush().unwrap();
    let spans = exporter.get_finished_spans().unwrap();
    assert_eq!(spans.len(), 1);
    let s = &spans[0];
    assert_eq!(s.name, "example-span");
    assert!(s.span_context.is_valid());
    assert_eq!(s.attributes.len(), 1);
    assert_eq!(s.attributes[0].key.as_str(), "my-attribute");
    assert_eq!(s.attributes[0].value.as_str(), "my-value");
    assert_eq!(s.events.events.len(), 1);
    assert_eq!(s.events.events[0].name, "example-event-name");
    assert_eq!(s.events.events[0].attributes.len(), 1);
    assert_eq!(s.events.events[0].attributes[0].key.as_str(), "event_attribute1");
    assert_eq!(s.instrumentation_scope.name(), "stdout-example");
    assert_eq!(s.instrumentation_scope.version(), Some("v1"));
    provider.shutdown().unwrap();
}

#[test]
fn sdk_tracer_provider_second_shutdown_returns_error_without_panic() {
    let provider =
        SdkTracerProvider::builder().with_simple_exporter(InMemorySpanExporter::default()).build();
    assert!(provider.shutdown().is_ok());
    let second = provider.shutdown();
    assert!(matches!(second, Err(OTelSdkError::AlreadyShutdown)));
}

#[test]
fn sdk_meter_provider_second_shutdown_returns_error_without_panic() {
    let exporter = InMemoryMetricExporter::default();
    let provider = SdkMeterProvider::builder()
        .with_reader(PeriodicReader::builder(exporter).build())
        .build();
    assert!(provider.shutdown().is_ok());
    let second = provider.shutdown();
    assert!(matches!(second, Err(OTelSdkError::AlreadyShutdown)));
}

#[test]
fn sdk_logger_provider_second_shutdown_returns_error_without_panic() {
    let provider =
        SdkLoggerProvider::builder().with_simple_exporter(InMemoryLogExporter::default()).build();
    assert!(provider.shutdown().is_ok());
    let second = provider.shutdown();
    assert!(matches!(second, Err(OTelSdkError::AlreadyShutdown)));
}
