[package]
name = "otel-wasi"
version = "0.2.0"
edition = "2021"
publish = false

[dependencies]
tracing = "0.1"
opentelemetry = "0.31"
opentelemetry_sdk = "0.31"
tracing-opentelemetry = "0.32"
tracing-subscriber = "0.3"
syn = { version = "2", features = ["full"] }
quote = "1"
proc-macro2 = "1"
