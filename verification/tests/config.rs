use otel_wasi::config::DEFAULT_ERROR_SLUG;
use otel_wasi::SpanConfig;

#[test]
fn build_defaults_error_slug() {
    let config = SpanConfig::builder()
        .service_name("nats-echo")
        .span_name("handle-message")
        .build();
    assert_eq!(config.service_name(), "nats-echo");
    assert_eq!(config.span_name(), "handle-message");
    assert_eq!(config.error_slug(), "otel-wasi-error");
    assert_eq!(config.error_slug(), DEFAULT_ERROR_SLUG);
}

#[test]
fn build_keeps_explicit_error_slug() {
    let config = SpanConfig::builder()
        .error_slug("db-timeout")
        .span_name("handle")
        .service_name("http-hello")
        .build();
    assert_eq!(config.service_name(), "http-hello");
    assert_eq!(config.span_name(), "handle");
    assert_eq!(config.error_slug(), "db-timeout");
}

#[test]
fn later_setter_overrides_earlier() {
    let config = SpanConfig::builder()
        .service_name("first")
        .service_name("second")
        .span_name("span")
        .build();
    assert_eq!(config.service_name(), "second");
}

#[test]
fn try_build_requires_both_names() {
    assert!(SpanConfig::builder().service_name("svc").try_build().is_none());
    assert!(SpanConfig::builder().span_name("span").try_build().is_none());
    assert!(SpanConfig::builder().try_build().is_none());
    let config = SpanConfig::builder()
        .service_name("svc")
        .span_name("span")
        .try_build()
        .unwrap();
    assert_eq!(config.error_slug(), "otel-wasi-error");
}
