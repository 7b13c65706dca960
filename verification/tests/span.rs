use otel_wasi::span::{run_then_ok, run_with_outcome};
use otel_wasi::{Error, ResultWithSlug, SpanConfig, SpanOutcome, WasiError, WasiSpan, WithSlug};
use opentelemetry::Context;
use tracing::Span;

fn config() -> SpanConfig {
    SpanConfig::builder()
        .service_name("test-service")
        .span_name("test-span")
        .error_slug("test-failed")
        .build()
}

#[test]
fn span_lifecycle_without_subscriber() {
    let mut span = WasiSpan::from_span(Span::none(), config(), Context::new(), Some("cafe"));
    {
        let _entered = span.enter();
        assert!(span.span().is_none());
    }
    span.finish_ok();
}

#[test]
fn finish_with_result_outcomes() {
    let ok: Result<u32, String> = Ok(1);
    let err: Result<u32, String> = Err("broken".to_string());
    WasiSpan::from_span(Span::none(), config(), Context::new(), None).finish(&ok);
    WasiSpan::from_span(Span::none(), config(), Context::new(), None).finish(&err);
    WasiSpan::from_span(Span::none(), config(), Context::new(), None).finish(&());
}

#[test]
fn finish_error_and_drop_unfinished() {
    WasiSpan::from_span(Span::none(), config(), Context::new(), None).finish_error("db-timeout", "timed out after 3ms");
    let owned = format!("timed out after {}ms", 3);
    let mut span = WasiSpan::from_span(Span::none(), config(), Context::new(), None);
    span.finish_error("db-timeout", &owned);
    span.finish_ok();
    let unfinished = WasiSpan::from_span(Span::none(), config(), Context::new(), None);
    drop(unfinished);
}

#[test]
fn record_on_each_outcome() {
    let mut span = WasiSpan::from_span(Span::none(), config(), Context::new(), None);
    ().record_on(&mut span);
    Ok::<(), String>(()).record_on(&mut span);
    Err::<(), String>("e".to_string()).record_on(&mut span);
    span.finish_ok();
}

#[test]
fn slugged_errors_keep_their_payload() {
    let e = 404_u32.with_slug("not-found");
    assert_eq!(e.slug(), "not-found");
    assert_eq!(e.message(), "404");
    assert_eq!(*e.inner(), 404);
    assert_eq!(e.into_inner(), 404);

    let r: Result<(), String> = Err("broken pipe".to_string());
    let slugged = r.error_with_slug("publish-failed");
    let e = slugged.err().unwrap();
    assert_eq!(e.slug(), "publish-failed");
    assert_eq!(e.message(), "broken pipe");
    assert_eq!(e.into_inner(), "broken pipe");

    let ok: Result<u8, String> = Ok(3);
    assert_eq!(ok.error_with_slug("x").ok(), Some(3));

    let m = Error::from_message("db-timeout", "connection lost".to_string());
    assert_eq!(m.slug(), "db-timeout");
    assert_eq!(m.message(), "connection lost");
    assert_eq!(m.into_inner(), "connection lost");
}

#[test]
fn finish_with_wasi_errors() {
    let err: Result<(), Error<u32>> = Err(Error::new("custom-failed", "custom error message".to_string(), 7));
    WasiSpan::from_span(Span::none(), config(), Context::new(), None).finish(&err);
}

#[test]
fn runners_return_the_body_result() {
    let mut span = WasiSpan::from_span(Span::none(), config(), Context::new(), None);
    let r = run_with_outcome(&mut span, |s: &WasiSpan| -> Result<u8, String> {
        let _entered = s.enter();
        Err("bad".to_string())
    });
    assert_eq!(r, Err("bad".to_string()));

    let mut span = WasiSpan::from_span(Span::none(), config(), Context::new(), None);
    let v = run_then_ok(&mut span, |_s: &WasiSpan| 42_u64);
    assert_eq!(v, 42);

    let mut span = WasiSpan::from_span(Span::none(), config(), Context::new(), None);
    run_with_outcome(&mut span, |_s: &WasiSpan| ());
}
