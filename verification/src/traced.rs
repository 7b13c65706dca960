use crate::record::{attr, AttributeValue, SpanStatus, WriteView};
use opentelemetry::trace::Status;
use tracing::Span;
use tracing_opentelemetry::OpenTelemetrySpanExt;
use vstd::prelude::*;

verus! {

#[verifier::external_type_specification]
#[verifier::external_body]
pub struct ExSpan(tracing::Span);

#[verifier::external_type_specification]
#[verifier::external_body]
pub struct ExContext(opentelemetry::Context);

/// A tracing span together with the record of what was written to it
/// through this value: its attributes and statuses, in order, and the
/// parent context handed to it. Only the writing methods below extend the
/// record, each by the one write it makes.
pub struct TracedSpan {
    span: Span,
    writes: Ghost<Seq<WriteView>>,
    parent: Ghost<Option<opentelemetry::Context>>,
}

/// What a [`TracedSpan`] received over its life: its span and its writes.
/// Only [`TracedSpan::into_record`] makes one, from a span that can take no
/// more writes.
pub struct WriteRecord {
    handle: Ghost<Span>,
    writes: Ghost<Seq<WriteView>>,
}

impl WriteRecord {
    /// The span the writes were made on.
    pub closed spec fn handle(&self) -> Span {
        self.handle@
    }

    /// The writes made on it, in order.
    pub closed spec fn writes(&self) -> Seq<WriteView> {
        self.writes@
    }
}

impl TracedSpan {
    /// Ends the recording: the record of everything this value wrote.
    pub fn into_record(self) -> (r: WriteRecord)
        ensures
            r.handle() == self.handle(),
            r.writes() == self.writes(),
    {
        WriteRecord { handle: Ghost(self.span), writes: self.writes }
    }

    /// The tracing span written to.
    pub closed spec fn handle(&self) -> Span {
        self.span
    }

    /// Every write made on the span through this value, in order.
    pub closed spec fn writes(&self) -> Seq<WriteView> {
        self.writes@
    }

    /// The parent context last handed to the span, if any.
    pub closed spec fn parent(&self) -> Option<opentelemetry::Context> {
        self.parent@
    }

    /// Starts recording writes on `span`; nothing is written yet.
    pub fn new(span: Span) -> (t: TracedSpan)
        ensures
            t.handle() == span,
            t.writes() == Seq::<WriteView>::empty(),
            t.parent() is None,
    {
        TracedSpan { span, writes: Ghost(Seq::empty()), parent: Ghost(None) }
    }

    /// The tracing span written to.
    pub fn span(&self) -> (r: &Span)
        ensures
            *r == self.handle(),
    {
        &self.span
    }

    /// `tracing_opentelemetry::OpenTelemetrySpanExt::set_attribute` with
    /// `key` and `value` (converted one for one to an OpenTelemetry value).
    /// The contract records that write; what the subscriber keeps of it is
    /// not claimed. The call is claimed not to unwind (the method only hands
    /// the attribute to the subscriber, and does nothing without one); a
    /// subscriber whose own code panics is left out of that claim.
    #[verifier::external_body]
    pub fn set_attribute(&mut self, key: &'static str, value: AttributeValue)
        ensures
            final(self).handle() == old(self).handle(),
            final(self).parent() == old(self).parent(),
            final(self).writes() == old(self).writes().push(attr(key@, value@)),
        opens_invariants none
        no_unwind
    {
        match value {
            AttributeValue::Str(s) => self.span.set_attribute(key, s),
            AttributeValue::StaticStr(s) => self.span.set_attribute(key, s),
            AttributeValue::I64(i) => self.span.set_attribute(key, i),
            AttributeValue::Bool(b) => self.span.set_attribute(key, b),
        }
    }

    /// `tracing_opentelemetry::OpenTelemetrySpanExt::set_status` with
    /// `Status::Ok`, or `Status::error(message)`. The contract records that
    /// write; as for attributes, the call is claimed not to unwind, leaving
    /// out a subscriber whose own code panics.
    #[verifier::external_body]
    pub fn set_status(&mut self, status: SpanStatus)
        ensures
            final(self).handle() == old(self).handle(),
            final(self).parent() == old(self).parent(),
            final(self).writes() == old(self).writes().push(WriteView::Status(status@)),
        opens_invariants none
        no_unwind
    {
        match status {
            SpanStatus::Succeeded => self.span.set_status(Status::Ok),
            SpanStatus::Failed(m) => self.span.set_status(Status::error(m)),
            SpanStatus::FailedStatic(m) => self.span.set_status(Status::error(m)),
        }
    }

    /// `tracing_opentelemetry::OpenTelemetrySpanExt::set_parent` with `cx`.
    /// The contract records that `cx` was handed over; whether the layer
    /// adopted it (the call returns an error, which is dropped, when no
    /// OpenTelemetry layer is installed or the span has already started) is
    /// not claimed.
    #[verifier::external_body]
    pub fn set_parent(&mut self, cx: opentelemetry::Context)
        ensures
            final(self).handle() == old(self).handle(),
            final(self).writes() == old(self).writes(),
            final(self).parent() == Some(cx),
    {
        let _ = self.span.set_parent(cx);
    }
}

} // verus!
