//! A verified model of a console-exporting telemetry pipeline.
//!
//! The library models the three signal kinds of an observability pipeline —
//! log records, spans, and metric instruments — together with the attribute
//! sets they carry, the aggregation rules that turn metric observations into
//! exported data points, and the orchestration sequence that initializes the
//! providers, emits one example of each signal, and shuts the providers down.
//!
//! The actual console wiring (exporters, the logging bridge, the async
//! runtime) is input/output and lives outside the library; the library
//! supplies the values to emit and decides the order of every step.

pub mod attrs;
pub mod logs;
pub mod metrics;
pub mod pipeline;
pub mod spans;
