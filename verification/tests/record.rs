use otel_wasi::record::{duration_record, error_record, ok_record, root_record};
use otel_wasi::{Attribute, AttributeValue, SpanStatus, SpanWrite};

fn attr(key: &'static str, value: AttributeValue) -> SpanWrite {
    SpanWrite::Attribute(Attribute { key, value })
}

#[test]
fn error_record_sets_flag_slug_message_and_status() {
    let ws = error_record("db-timeout", "connection lost".to_string());
    assert_eq!(
        ws,
        vec![
            attr("error", AttributeValue::Bool(true)),
            attr("exception.slug", AttributeValue::StaticStr("db-timeout")),
            attr("exception.message", AttributeValue::Str("connection lost".to_string())),
            SpanWrite::Status(SpanStatus::Failed("connection lost".to_string())),
        ]
    );
}

#[test]
fn ok_record_is_one_ok_status() {
    assert_eq!(ok_record(), vec![SpanWrite::Status(SpanStatus::Succeeded)]);
}

#[test]
fn duration_record_casts_millis() {
    assert_eq!(duration_record(1500), attr("duration_ms", AttributeValue::I64(1500)));
    // Like `as i64`, a count beyond `i64::MAX` wraps.
    assert_eq!(
        duration_record(u64::MAX as u128 + 1),
        attr("duration_ms", AttributeValue::I64(0))
    );
    assert_eq!(
        duration_record(i64::MAX as u128 + 1),
        attr("duration_ms", AttributeValue::I64(i64::MIN))
    );
}

#[test]
fn root_record_without_git_hash() {
    let ws = root_record("0123".to_string(), "nats-echo", "0.2.0", None);
    assert_eq!(
        ws,
        vec![
            attr("trace_id", AttributeValue::Str("0123".to_string())),
            attr("service.name", AttributeValue::Str("nats-echo".to_string())),
            attr("service.version", AttributeValue::Str("0.2.0".to_string())),
        ]
    );
}

#[test]
fn root_record_with_git_hash() {
    let ws = root_record("abcd".to_string(), "svc", "1.0.0", Some("deadbeef"));
    assert_eq!(ws.len(), 4);
    assert_eq!(
        ws[3],
        attr("service.build.git_hash", AttributeValue::Str("deadbeef".to_string()))
    );
}

#[test]
fn attribute_constructors() {
    assert_eq!(
        Attribute::string("k", "v".to_string()),
        Attribute { key: "k", value: AttributeValue::Str("v".to_string()) }
    );
    assert_eq!(Attribute::integer("n", -3).value, AttributeValue::I64(-3));
    assert_eq!(Attribute::boolean("b", true).value, AttributeValue::Bool(true));
    let a = Attribute::string("k", "v".to_string());
    assert_eq!(a.duplicate(), a);
}
