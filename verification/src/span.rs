use crate::config::SpanConfig;
use crate::main_span::{current_main_span, innermost, MainSpanStack};
use crate::record::{
    attribute_write, duration_record, duration_write, error_record, error_writes, ok_record,
    ok_writes, opt_str_view, attribute_writes, root_record, root_writes, writes_view, Attribute, AttributeValue,
    SpanStatus, SpanWrite, WriteView, attr, ValueView, StatusView,
};
use crate::traced::{TracedSpan, WriteRecord};
use opentelemetry::trace::TraceContextExt;
use tracing::Span;
use tracing_opentelemetry::OpenTelemetrySpanExt;
use crate::errors::{OutcomeError, WasiError};
use vstd::prelude::*;
use vstd::string::to_string_from_display_ensures;

verus! {

/// Version recorded as `service.version` on every root span.
pub const SERVICE_VERSION: &'static str = "0.2.0";

/// Slug recorded on a root span that is dropped before it was finished.
pub const SPAN_DROPPED_SLUG: &'static str = "otel-wasi-span-dropped-without-finish";

/// Message recorded on a root span that is dropped before it was finished.
pub const SPAN_DROPPED_MESSAGE: &'static str = "WasiSpan dropped before finish was called";

#[verifier::external_type_specification]
#[verifier::external_body]
pub struct ExEntered<'a>(tracing::span::Entered<'a>);

#[verifier::external_type_specification]
#[verifier::external_body]
pub struct ExInstant(std::time::Instant);

/// The span's OpenTelemetry trace id, rendered by `TraceId`'s `Display`
/// (`{:032x}`), read through `OpenTelemetrySpanExt::context`. The id depends on
/// the subscriber and on chance; only its shape is claimed: 32 lowercase
/// hexadecimal digits.
#[verifier::external_body]
fn span_trace_id(span: &Span) -> (id: String)
    ensures
        id@.len() == 32,
        forall|i: int| 0 <= i < 32 ==> ('0' <= #[trigger] id@[i] <= '9' || 'a' <= id@[i] <= 'f'),
{
    span.context().span().span_context().trace_id().to_string()
}

/// `std::time::Instant::now`; nothing is claimed of the clock.
#[verifier::external_body]
fn instant_now() -> std::time::Instant {
    std::time::Instant::now()
}

/// `std::time::Instant::elapsed`; nothing is claimed of the clock. It is
/// claimed not to unwind: the std version in use saturates to a zero duration
/// when the clock went backwards (its documentation keeps the right to panic
/// there in a later version).
#[verifier::external_body]
fn instant_elapsed(start: &std::time::Instant) -> core::time::Duration
    opens_invariants none
    no_unwind
{
    start.elapsed()
}

/// `core::time::Duration::as_millis`; the value depends on the clock reading
/// behind the duration, so nothing is claimed of it.
#[verifier::external_body]
fn duration_millis(d: &core::time::Duration) -> u128
    opens_invariants none
    no_unwind
{
    d.as_millis()
}

/// `tracing::Span::current`: the span the current thread is in.
#[verifier::external_body]
fn span_current() -> Span {
    Span::current()
}

/// Abstract state of a [`WasiSpan`].
pub struct WasiSpanView {
    pub finished: bool,
    pub error_slug: Seq<char>,
    /// Every write made on the underlying span through this value, in order.
    pub writes: Seq<WriteView>,
}

/// The root span of one component invocation.
pub struct WasiSpan {
    traced: TracedSpan,
    started_at: std::time::Instant,
    finished: bool,
    error_slug: &'static str,
}

impl View for WasiSpan {
    type V = WasiSpanView;

    closed spec fn view(&self) -> WasiSpanView {
        WasiSpanView { finished: self.finished, error_slug: self.error_slug@, writes: self.traced.writes() }
    }
}

/// `after` is `before` followed by a duration attribute and then `tail`.
pub open spec fn timed_then(before: Seq<WriteView>, after: Seq<WriteView>, tail: Seq<WriteView>) -> bool {
    exists|millis: u128| after == before.push(#[trigger] duration_write(millis)) + tail
}

/// A span that ends in error records, after its earlier writes, exactly five
/// more: the duration, the error flag, the slug, the message, and last an
/// error status whose description is that same message.
pub proof fn lemma_error_end(before: Seq<WriteView>, after: Seq<WriteView>, slug: Seq<char>, message: Seq<char>)
    requires
        timed_then(before, after, error_writes(slug, message)),
    ensures
        after.len() == before.len() + 5,
        after.subrange(0, before.len() as int) == before,
        after[before.len() + 1int] == attr("error"@, ValueView::Bool(true)),
        after[before.len() + 2int] == attr("exception.slug"@, ValueView::Str(slug)),
        after[before.len() + 3int] == attr("exception.message"@, ValueView::Str(message)),
        after.last() == WriteView::Status(StatusView::Failed(message)),
{
    let millis = choose|millis: u128| after == before.push(#[trigger] duration_write(millis)) + error_writes(slug, message);
    assert(after.subrange(0, before.len() as int) =~= before);
}

/// A span that ends successfully records, after its earlier writes, its
/// duration and then an OK status.
pub proof fn lemma_ok_end(before: Seq<WriteView>, after: Seq<WriteView>)
    requires
        timed_then(before, after, ok_writes()),
    ensures
        after.len() == before.len() + 2,
        after.subrange(0, before.len() as int) == before,
        after[before.len() as int] matches WriteView::Attribute { key, .. } && key == "duration_ms"@,
        after.last() == WriteView::Status(StatusView::Succeeded),
{
    let millis = choose|millis: u128| after == before.push(#[trigger] duration_write(millis)) + ok_writes();
    assert(after.subrange(0, before.len() as int) =~= before);
}

/// How many status writes `ws` holds.
pub open spec fn status_count(ws: Seq<WriteView>) -> nat
    decreases ws.len(),
{
    if ws.len() == 0 {
        0
    } else {
        status_count(ws.drop_last()) + if ws.last() is Status {
            1nat
        } else {
            0nat
        }
    }
}

/// The two ways a span can end: successfully, or in error.
pub open spec fn is_ending(tail: Seq<WriteView>) -> bool {
    tail == ok_writes() || exists|slug: Seq<char>, message: Seq<char>| tail == error_writes(slug, message)
}

pub proof fn lemma_status_count_concat(a: Seq<WriteView>, b: Seq<WriteView>)
    ensures
        status_count(a + b) == status_count(a) + status_count(b),
    decreases b.len(),
{
    if b.len() == 0 {
        assert(a + b =~= a);
    } else {
        lemma_status_count_concat(a, b.drop_last());
        assert((a + b).drop_last() =~= a + b.drop_last());
    }
}

pub proof fn lemma_attributes_only(ws: Seq<WriteView>)
    requires
        forall|i: int| 0 <= i < ws.len() ==> #[trigger] ws[i] is Attribute,
    ensures
        status_count(ws) == 0,
    decreases ws.len(),
{
    if ws.len() > 0 {
        let p = ws.drop_last();
        assert forall|i: int| 0 <= i < p.len() implies #[trigger] p[i] is Attribute by {
            assert(p[i] == ws[i]);
        }
        lemma_attributes_only(p);
    }
}

/// A root span starts without status, and setting attributes adds none.
pub proof fn lemma_no_status_before_end(
    trace_id: Seq<char>,
    service_name: Seq<char>,
    service_version: Seq<char>,
    git_hash: Option<Seq<char>>,
    attrs: Seq<Attribute>,
)
    ensures
        status_count(root_writes(trace_id, service_name, service_version, git_hash)) == 0,
        status_count(attribute_writes(attrs)) == 0,
{
    let r = root_writes(trace_id, service_name, service_version, git_hash);
    assert forall|i: int| 0 <= i < r.len() implies #[trigger] r[i] is Attribute by {}
    lemma_attributes_only(r);
    let w = attribute_writes(attrs);
    assert forall|i: int| 0 <= i < w.len() implies #[trigger] w[i] is Attribute by {}
    lemma_attributes_only(w);
}

/// Each ending holds exactly one status write, its last.
pub proof fn lemma_ending_has_one_status(tail: Seq<WriteView>)
    requires
        is_ending(tail),
    ensures
        status_count(tail) == 1,
        tail.len() > 0,
        tail.last() is Status,
{
    let p = tail.drop_last();
    if tail == ok_writes() {
        assert(p =~= Seq::<WriteView>::empty());
        assert(status_count(p) == 0);
    } else {
        let (slug, message) = choose|slug: Seq<char>, message: Seq<char>| tail == error_writes(slug, message);
        assert forall|i: int| 0 <= i < p.len() implies #[trigger] p[i] is Attribute by {}
        lemma_attributes_only(p);
    }
    assert(status_count(tail) == status_count(p) + 1);
}

/// A span's life has exactly one status: a span without status that ends
/// (by `finish`, `finish_ok`, `finish_error` or being dropped unfinished)
/// holds exactly one status write, and it is the last write; the duration
/// comes right before the ending's writes.
pub proof fn lemma_one_status_per_life(before: Seq<WriteView>, after: Seq<WriteView>, tail: Seq<WriteView>)
    requires
        status_count(before) == 0,
        is_ending(tail),
        timed_then(before, after, tail),
    ensures
        status_count(after) == 1,
        after.last() is Status,
        after[before.len() as int] matches WriteView::Attribute { key, .. } && key == "duration_ms"@,
{
    let millis = choose|millis: u128| after == before.push(#[trigger] duration_write(millis)) + tail;
    lemma_ending_has_one_status(tail);
    lemma_status_count_concat(before.push(duration_write(millis)), tail);
    assert(before.push(duration_write(millis)).drop_last() =~= before);
}

/// A `Result` that holds an error implementing `WasiError` ends a span with
/// that error's own slug and message, whatever slug the span was configured
/// with: after the duration come the error flag, the error's slug, the
/// error's message, and last an error status whose description is that same
/// message. `Ok` ends it with an OK status.
pub proof fn lemma_wasi_error_ends_span<T, E: WasiError>(
    r: Result<T, E>,
    configured_slug: Seq<char>,
    before: Seq<WriteView>,
    after: Seq<WriteView>,
)
    requires
        timed_then(before, after, r.ending(configured_slug)),
    ensures
        r is Ok ==> after.len() == before.len() + 2 && after.last() == WriteView::Status(
            StatusView::Succeeded,
        ),
        r matches Err(e) ==> {
            &&& after.len() == before.len() + 5
            &&& after[before.len() + 1int] == attr("error"@, ValueView::Bool(true))
            &&& after[before.len() + 2int] == attr("exception.slug"@, ValueView::Str(e.spec_slug()))
            &&& after[before.len() + 3int] == attr(
                "exception.message"@,
                ValueView::Str(e.spec_message()),
            )
            &&& after.last() == WriteView::Status(StatusView::Failed(e.spec_message()))
        },
{
    match r {
        Ok(_) => lemma_ok_end(before, after),
        Err(e) => lemma_error_end(before, after, e.spec_slug(), e.spec_message()),
    }
}

/// A `Result` whose error is a plain `String` ends a span in error with the
/// span's configured slug and the string as message.
pub proof fn lemma_string_error_ends_span<T>(
    r: Result<T, String>,
    configured_slug: Seq<char>,
    before: Seq<WriteView>,
    after: Seq<WriteView>,
)
    requires
        r is Err,
        timed_then(before, after, r.ending(configured_slug)),
    ensures
        after.len() == before.len() + 5,
        after[before.len() + 2int] == attr("exception.slug"@, ValueView::Str(configured_slug)),
        after[before.len() + 3int] == attr("exception.message"@, ValueView::Str(r->Err_0@)),
        after.last() == WriteView::Status(StatusView::Failed(r->Err_0@)),
{
    lemma_error_end(before, after, configured_slug, r->Err_0@);
}

/// `()` and `Result` end a span in one of the two ways.
pub proof fn lemma_outcome_endings<T, E: OutcomeError>(r: Result<T, E>, configured_slug: Seq<char>)
    ensures
        is_ending(().ending(configured_slug)),
        is_ending(r.ending(configured_slug)),
{
    if let Err(e) = r {
        assert(r.ending(configured_slug) == error_writes(e.outcome_slug(configured_slug), e.outcome_message()));
    }
}

impl WasiSpan {
    /// The tracing span this root span writes to.
    pub closed spec fn handle(&self) -> Span {
        self.traced.handle()
    }

    /// The parent context handed to the tracing span.
    pub closed spec fn parent_context(&self) -> Option<opentelemetry::Context> {
        self.traced.parent()
    }

    /// Wraps an already created tracing span as the root span of an
    /// invocation: hands it its parent context, then records its trace id,
    /// the service name and version and, when given, the build's git hash.
    pub fn from_span(
        span: Span,
        config: SpanConfig,
        parent: opentelemetry::Context,
        git_hash: Option<&'static str>,
    ) -> (s: WasiSpan)
        ensures
            s.handle() == span,
            s.parent_context() == Some(parent),
            !s@.finished,
            s@.error_slug == config@.error_slug,
            exists|trace_id: Seq<char>|
                trace_id.len() == 32 && (forall|i: int|
                    0 <= i < 32 ==> ('0' <= #[trigger] trace_id[i] <= '9' || 'a' <= trace_id[i] <= 'f'))
                    && s@.writes == #[trigger] root_writes(
                    trace_id,
                    config@.service_name,
                    SERVICE_VERSION@,
                    opt_str_view(git_hash),
                ),
    {
        let mut traced = TracedSpan::new(span);
        traced.set_parent(parent);
        let trace_id = span_trace_id(traced.span());
        let ghost tid = trace_id@;
        let record = root_record(trace_id, config.service_name(), SERVICE_VERSION, git_hash);
        let mut s = WasiSpan {
            traced,
            started_at: instant_now(),
            finished: false,
            error_slug: config.error_slug(),
        };
        s.write_all(&record);
        assert(s@.writes =~= root_writes(
            tid,
            config@.service_name,
            SERVICE_VERSION@,
            opt_str_view(git_hash),
        ));
        s
    }

    /// `tracing::Span::enter` on the underlying span: the current thread is in
    /// the span until the returned guard drops. Nothing is claimed of the
    /// guard, which only the subscriber observes.
    #[verifier::external_body]
    pub fn enter(&self) -> tracing::span::Entered<'_> {
        self.traced.span().enter()
    }

    /// The underlying tracing span.
    pub fn span(&self) -> (r: &Span)
        ensures
            *r == self.handle(),
    {
        self.traced.span()
    }

    /// Makes one write on the underlying span.
    fn write(&mut self, w: SpanWrite)
        ensures
            final(self)@ == (WasiSpanView { writes: old(self)@.writes.push(w@), ..old(self)@ }),
            final(self).handle() == old(self).handle(),
            final(self).parent_context() == old(self).parent_context(),
        opens_invariants none
        no_unwind
    {
        match w {
            SpanWrite::Attribute(a) => self.traced.set_attribute(a.key, a.value),
            SpanWrite::Status(st) => self.traced.set_status(st),
        }
    }

    /// Makes the writes `ws` in order.
    fn write_all(&mut self, ws: &Vec<SpanWrite>)
        ensures
            final(self)@ == (WasiSpanView { writes: old(self)@.writes + writes_view(ws@), ..old(self)@ }),
            final(self).handle() == old(self).handle(),
            final(self).parent_context() == old(self).parent_context(),
    {
        let n = ws.len();
        let mut i: usize = 0;
        while i < n
            invariant
                n == ws@.len(),
                i <= n,
                self@ == (WasiSpanView {
                    writes: old(self)@.writes + writes_view(ws@.take(i as int)),
                    ..old(self)@
                }),
                self.handle() == old(self).handle(),
                self.parent_context() == old(self).parent_context(),
            decreases n - i,
        {
            let w = ws[i].duplicate();
            self.write(w);
            i = i + 1;
            assert(writes_view(ws@.take(i as int)) =~= writes_view(ws@.take(i - 1)).push(ws@[i - 1]@));
        }
        assert(ws@.take(n as int) =~= ws@);
    }

    /// Sets one attribute on the underlying span.
    pub fn set_attribute(&mut self, attr: Attribute)
        ensures
            final(self)@ == (WasiSpanView {
                writes: old(self)@.writes.push(WriteView::Attribute { key: attr.key@, value: attr.value@ }),
                ..old(self)@
            }),
            final(self).handle() == old(self).handle(),
            final(self).parent_context() == old(self).parent_context(),
    {
        self.write(SpanWrite::Attribute(attr));
    }

    /// Sets the attributes in order.
    pub fn set_attributes(&mut self, attrs: Vec<Attribute>)
        ensures
            final(self)@ == (WasiSpanView {
                writes: old(self)@.writes + attribute_writes(attrs@),
                ..old(self)@
            }),
            final(self).handle() == old(self).handle(),
            final(self).parent_context() == old(self).parent_context(),
    {
        let n = attrs.len();
        let mut i: usize = 0;
        while i < n
            invariant
                n == attrs@.len(),
                i <= n,
                self@ == (WasiSpanView {
                    writes: old(self)@.writes + attribute_writes(attrs@.take(i as int)),
                    ..old(self)@
                }),
                self.handle() == old(self).handle(),
                self.parent_context() == old(self).parent_context(),
            decreases n - i,
        {
            let a = attrs[i].duplicate();
            self.set_attribute(a);
            i = i + 1;
            assert(attribute_writes(attrs@.take(i as int)) =~= attribute_writes(attrs@.take(i - 1)).push(
                WriteView::Attribute { key: attrs@[i - 1].key@, value: attrs@[i - 1].value@ },
            ));
        }
        assert(attrs@.take(n as int) =~= attrs@);
    }

    /// Records how long the span has been open, in milliseconds.
    fn record_duration(&mut self)
        ensures
            timed_then(old(self)@.writes, final(self)@.writes, Seq::empty()),
            final(self)@.finished == old(self)@.finished,
            final(self)@.error_slug == old(self)@.error_slug,
            final(self).handle() == old(self).handle(),
            final(self).parent_context() == old(self).parent_context(),
        opens_invariants none
        no_unwind
    {
        let elapsed = instant_elapsed(&self.started_at);
        let millis = duration_millis(&elapsed);
        self.write(duration_record(millis));
        assert(self@.writes == old(self)@.writes.push(duration_write(millis)) + Seq::<WriteView>::empty());
    }

    pub(crate) fn set_status_ok(&mut self)
        ensures
            final(self)@ == (WasiSpanView { writes: old(self)@.writes + ok_writes(), ..old(self)@ }),
            final(self).handle() == old(self).handle(),
            final(self).parent_context() == old(self).parent_context(),
    {
        let ws = ok_record();
        self.write_all(&ws);
    }

    pub(crate) fn set_status_error(&mut self, slug: &'static str, message: String)
        ensures
            final(self)@ == (WasiSpanView {
                writes: old(self)@.writes + error_writes(slug@, message@),
                ..old(self)@
            }),
            final(self).handle() == old(self).handle(),
            final(self).parent_context() == old(self).parent_context(),
    {
        let ws = error_record(slug, message);
        self.write_all(&ws);
    }

    pub(crate) fn configured_error_slug(&self) -> (r: &'static str)
        ensures
            r@ == self@.error_slug,
    {
        self.error_slug
    }
}


impl WasiSpan {
    /// Ends the span with the outcome of the invocation: marks it finished,
    /// so that dropping it adds nothing, then records the duration and the
    /// outcome's ending.
    pub fn finish<R: SpanOutcome>(&mut self, result: &R)
        ensures
            final(self).handle() == old(self).handle(),
            final(self).parent_context() == old(self).parent_context(),
            final(self)@.finished,
            final(self)@.error_slug == old(self)@.error_slug,
            timed_then(old(self)@.writes, final(self)@.writes, result.ending(old(self)@.error_slug)),
    {
        self.finished = true;
        self.record_duration();
        let ghost timed = self@.writes;
        result.record_on(self);
        proof {
            let millis = choose|millis: u128|
                timed == old(self)@.writes.push(#[trigger] duration_write(millis)) + Seq::<WriteView>::empty();
            assert(self@.writes =~= old(self)@.writes.push(duration_write(millis)) + result.ending(
                old(self)@.error_slug,
            ));
        }
    }

    /// Ends the span successfully: marks it finished, then records the
    /// duration and an OK status.
    pub fn finish_ok(&mut self)
        ensures
            final(self).handle() == old(self).handle(),
            final(self).parent_context() == old(self).parent_context(),
            final(self)@.finished,
            final(self)@.error_slug == old(self)@.error_slug,
            timed_then(old(self)@.writes, final(self)@.writes, ok_writes()),
    {
        self.finished = true;
        self.record_duration();
        let ghost timed = self@.writes;
        self.set_status_ok();
        proof {
            let millis = choose|millis: u128|
                timed == old(self)@.writes.push(#[trigger] duration_write(millis)) + Seq::<WriteView>::empty();
            assert(self@.writes =~= old(self)@.writes.push(duration_write(millis)) + ok_writes());
        }
    }

    /// Ends the span in error with `slug` and the text `message` displays
    /// as: marks it finished, then records the duration and the error.
    pub fn finish_error<D: std::fmt::Display + ?Sized>(&mut self, slug: &'static str, message: &D)
        ensures
            final(self).handle() == old(self).handle(),
            final(self).parent_context() == old(self).parent_context(),
            final(self)@.finished,
            final(self)@.error_slug == old(self)@.error_slug,
            exists|m: String|
                #[trigger] to_string_from_display_ensures::<D>(message, m) && timed_then(
                    old(self)@.writes,
                    final(self)@.writes,
                    error_writes(slug@, m@),
                ),
    {
        self.finished = true;
        self.record_duration();
        let ghost timed = self@.writes;
        let m = message.to_string();
        assert(to_string_from_display_ensures::<D>(message, m));
        self.set_status_error(slug, m);
        proof {
            let millis = choose|millis: u128|
                timed == old(self)@.writes.push(#[trigger] duration_write(millis)) + Seq::<WriteView>::empty();
            assert(self@.writes =~= old(self)@.writes.push(duration_write(millis)) + error_writes(slug@, m@));
        }
    }

    /// What dropping the span records: nothing once it was finished;
    /// otherwise its duration and the dropped-without-finish error. The span
    /// is finished afterwards.
    fn record_unfinished(&mut self)
        ensures
            final(self).handle() == old(self).handle(),
            final(self)@.finished,
            final(self)@.error_slug == old(self)@.error_slug,
            old(self)@.finished ==> final(self)@ == old(self)@,
            !old(self)@.finished ==> timed_then(
                old(self)@.writes,
                final(self)@.writes,
                error_writes(SPAN_DROPPED_SLUG@, SPAN_DROPPED_MESSAGE@),
            ),
        opens_invariants none
        no_unwind
    {
        if !self.finished {
            self.record_duration();
            let ghost timed = self@.writes;
            self.write(attribute_write("error", AttributeValue::Bool(true)));
            self.write(attribute_write("exception.slug", AttributeValue::StaticStr(SPAN_DROPPED_SLUG)));
            self.write(attribute_write("exception.message", AttributeValue::StaticStr(SPAN_DROPPED_MESSAGE)));
            self.write(SpanWrite::Status(SpanStatus::FailedStatic(SPAN_DROPPED_MESSAGE)));
            self.finished = true;
            let ghost millis = choose|millis: u128|
                timed == old(self)@.writes.push(#[trigger] duration_write(millis)) + Seq::<WriteView>::empty();
            assert(self@.writes =~= old(self)@.writes.push(duration_write(millis)) + error_writes(
                SPAN_DROPPED_SLUG@,
                SPAN_DROPPED_MESSAGE@,
            ));
        }
    }
}

impl Drop for WasiSpan {
    /// A span dropped before it was finished records its duration and the
    /// dropped-without-finish error; a finished one records nothing more.
    fn drop(&mut self)
        ensures
            final(self).handle() == old(self).handle(),
            final(self)@.finished,
            old(self)@.finished ==> final(self)@ == old(self)@,
            !old(self)@.finished ==> timed_then(
                old(self)@.writes,
                final(self)@.writes,
                error_writes(SPAN_DROPPED_SLUG@, SPAN_DROPPED_MESSAGE@),
            ),
        opens_invariants none
        no_unwind
    {
        self.record_unfinished();
    }
}

/// How a return value of an instrumented function ends its root span.
pub trait SpanOutcome {
    /// The writes that end a span whose configured error slug is
    /// `configured_slug` with this outcome.
    spec fn ending(&self, configured_slug: Seq<char>) -> Seq<WriteView>;

    /// Records this outcome's ending on `span`.
    fn record_on(&self, span: &mut WasiSpan)
        ensures
            final(span).handle() == old(span).handle(),
            final(span).parent_context() == old(span).parent_context(),
            final(span)@.finished == old(span)@.finished,
            final(span)@.error_slug == old(span)@.error_slug,
            final(span)@.writes == old(span)@.writes + self.ending(old(span)@.error_slug),
    ;
}

/// `()` always ends a span successfully.
impl SpanOutcome for () {
    open spec fn ending(&self, configured_slug: Seq<char>) -> Seq<WriteView> {
        ok_writes()
    }

    fn record_on(&self, span: &mut WasiSpan) {
        span.set_status_ok();
    }
}

/// `Ok` ends a span successfully; `Err` ends it in error with the error's
/// slug (the configured one for a plain `String`) and message.
impl<T, E: OutcomeError> SpanOutcome for Result<T, E> {
    open spec fn ending(&self, configured_slug: Seq<char>) -> Seq<WriteView> {
        match self {
            Ok(_) => ok_writes(),
            Err(e) => error_writes(e.outcome_slug(configured_slug), e.outcome_message()),
        }
    }

    fn record_on(&self, span: &mut WasiSpan) {
        match self {
            Ok(_) => span.set_status_ok(),
            Err(e) => {
                let slug = e.slug_or(span.configured_error_slug());
                let m = e.message_text();
                span.set_status_error(slug, m);
            },
        }
    }
}

/// Runs the body of an instrumented function once, with the root span at
/// hand, then finishes the span with the body's result (the duration, then
/// the result's ending); returns the result unchanged.
pub fn run_with_outcome<R: SpanOutcome, F: FnOnce(&WasiSpan) -> R>(span: &mut WasiSpan, body: F) -> (r: R)
    requires
        body.requires((&*old(span),)),
    ensures
        body.ensures((&*old(span),), r),
        final(span).handle() == old(span).handle(),
        final(span)@.finished,
        timed_then(old(span)@.writes, final(span)@.writes, r.ending(old(span)@.error_slug)),
{
    let result = body(&*span);
    span.finish(&result);
    result
}

/// Runs the body of an instrumented function whose result is no outcome
/// once, then finishes the span successfully; returns the result unchanged.
pub fn run_then_ok<T, F: FnOnce(&WasiSpan) -> T>(span: &mut WasiSpan, body: F) -> (r: T)
    requires
        body.requires((&*old(span),)),
    ensures
        body.ensures((&*old(span),), r),
        final(span).handle() == old(span).handle(),
        final(span)@.finished,
        timed_then(old(span)@.writes, final(span)@.writes, ok_writes()),
{
    let result = body(&*span);
    span.finish_ok();
    result
}

/// A clone of a span handle.
fn clone_handle<S: Clone>(s: &S) -> (r: S)
    ensures
        cloned::<S>(*s, r),
{
    s.clone()
}

/// Sets the attributes on `t`, in order.
fn write_attributes(t: &mut TracedSpan, attrs: &Vec<Attribute>)
    ensures
        final(t).handle() == old(t).handle(),
        final(t).writes() == old(t).writes() + attribute_writes(attrs@),
{
    let n = attrs.len();
    let mut i: usize = 0;
    while i < n
        invariant
            n == attrs@.len(),
            i <= n,
            t.handle() == old(t).handle(),
            t.writes() == old(t).writes() + attribute_writes(attrs@.take(i as int)),
        decreases n - i,
    {
        let a = attrs[i].duplicate();
        t.set_attribute(a.key, a.value);
        i = i + 1;
        assert(attribute_writes(attrs@.take(i as int)) =~= attribute_writes(attrs@.take(i - 1)).push(
            attr(attrs@[i - 1].key@, attrs@[i - 1].value@),
        ));
    }
    assert(attrs@.take(n as int) =~= attrs@);
}

/// Sets the attributes, in order, on (a handle cloned from) `span`. Returns
/// the writes made.
pub fn set_span_attributes(span: &Span, attrs: Vec<Attribute>) -> (written: WriteRecord)
    ensures
        cloned::<Span>(*span, written.handle()),
        written.writes() == attribute_writes(attrs@),
{
    let mut t = TracedSpan::new(clone_handle(span));
    write_attributes(&mut t, &attrs);
    assert(t.writes() =~= attribute_writes(attrs@));
    t.into_record()
}

/// Sets the attributes, in order, on the span the current thread is in.
/// Returns the writes made.
pub fn set_current_attributes(attrs: Vec<Attribute>) -> (written: WriteRecord)
    ensures
        written.writes() == attribute_writes(attrs@),
{
    let mut t = TracedSpan::new(span_current());
    write_attributes(&mut t, &attrs);
    assert(t.writes() =~= attribute_writes(attrs@));
    t.into_record()
}

/// Sets the attributes, in order, on a handle cloned from the innermost
/// main span, and returns what it received. Outside every main span it
/// returns `None` and makes no record.
pub fn set_main_attributes(stack: &MainSpanStack<Span>, attrs: Vec<Attribute>) -> (r: Option<WriteRecord>)
    ensures
        r is Some <==> stack@.len() > 0,
        r matches Some(w) ==> cloned::<Span>(innermost(stack@)->0, w.handle()) && w.writes()
            == attribute_writes(attrs@),
{
    match current_main_span(stack) {
        Some(span) => {
            let mut t = TracedSpan::new(span);
            write_attributes(&mut t, &attrs);
            assert(t.writes() =~= attribute_writes(attrs@));
            Some(t.into_record())
        },
        None => None,
    }
}

} // verus!
