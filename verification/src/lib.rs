//! Verified core of an OpenTelemetry tracing layer for WASI component entry points.
//!
//! The crate keeps the decisions of the tracing layer in verified code: the
//! configuration of a root span, what is recorded on a span when it finishes
//! (or is dropped unfinished), the scoping of the main-span stack, the
//! planning done by the `#[wasi_instrument]` attribute, and the decisions of
//! the `slug_on_wasi_error` lint.
use vstd::prelude::*;

pub mod args;
pub mod config;
pub mod errors;
pub mod instrument;
pub mod lint;
pub mod main_span;
pub mod record;
pub mod span;
pub mod text;
pub mod traced;

pub use config::{SpanConfig, SpanConfigBuilder};
pub use errors::{Error, OutcomeError, ResultWithSlug, WasiError, WithSlug};
pub use main_span::{current_main_span, enter_main_span, leave_main_span, MainSpanGuard, MainSpanStack};
pub use record::{Attribute, AttributeValue, SpanStatus, SpanWrite};
pub use span::{
    set_current_attributes, set_main_attributes, set_span_attributes, SpanOutcome, WasiSpan,
};
