[package]
name = "otel_stdout_demo"
version = "0.1.0"
edition = "2021"
publish = false

[dependencies]
opentelemetry = "0.30"
opentelemetry_sdk = "0.30"
opentelemetry-stdout = "0.30"
opentelemetry-appender-tracing = "0.30"
tokio = { version = "1", features = ["macros", "rt-multi-thread"] }
tracing = "0.1"
tracing-subscriber = "0.3"

[dev-dependencies]
opentelemetry_sdk = { version = "0.30", features = ["testing"] }
