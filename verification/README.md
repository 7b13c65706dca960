# otel-wasi (verified core)

OpenTelemetry tracing for WASI component entry points, with its decisions
proved in Verus.

- `src/config.rs` — `SpanConfig` and its builder (mandatory service and span
  names, default error slug).
- `src/record.rs` — what a span records: root attributes, duration, OK and
  error endings, as plain values with exact contracts.
- `src/span.rs` — `WasiSpan`: the root span of one invocation, its finishing
  methods, `SpanOutcome`, and the drop-without-finish record; the calls into
  `tracing`/`tracing-opentelemetry` and the clock sit behind small trusted
  wrappers.
- `src/traced.rs` — `TracedSpan`: one tracing span with the record of every
  write made on it, extended only by the trusted attribute, status and
  parent calls.
- `src/errors.rs` — `WasiError`, the slugged `Error<E>`, `with_slug` and
  `error_with_slug`, and how an error ends a span.
- `src/main_span.rs` — the main-span stack and the laws of its scoping.
- `src/args.rs`, `src/instrument.rs` — the argument grammar of
  `#[wasi_instrument]` and the plan of its expansion (service required,
  default span name, `export` signature rewrite).
- `src/lint.rs` — decisions of the `slug_on_wasi_error` lint.
- `app/` — the runtime around the core: the thread-local main-span stack,
  tracer initialisation and WASI context propagation, the future adapter,
  the attribute macros and the token plumbing of the attribute.
