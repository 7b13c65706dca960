use vstd::prelude::*;

verus! {

/// Slug recorded on a failed span when the configuration names none.
pub const DEFAULT_ERROR_SLUG: &'static str = "otel-wasi-error";

/// Abstract value of a [`SpanConfig`].
pub struct SpanConfigView {
    pub service_name: Seq<char>,
    pub span_name: Seq<char>,
    pub error_slug: Seq<char>,
}

/// Abstract value of a [`SpanConfigBuilder`]: which fields were set, and to what.
pub struct SpanConfigBuilderView {
    pub service_name: Option<Seq<char>>,
    pub span_name: Option<Seq<char>>,
    pub error_slug: Option<Seq<char>>,
}

/// Configuration of one root span: the service it belongs to, the span's
/// name and the slug recorded when the span ends in error.
#[derive(Debug, Clone, Copy)]
pub struct SpanConfig {
    service_name: &'static str,
    span_name: &'static str,
    error_slug: &'static str,
}

/// Builder of a [`SpanConfig`]; `service_name` and `span_name` are mandatory.
#[derive(Debug, Clone, Copy)]
pub struct SpanConfigBuilder {
    service_name: Option<&'static str>,
    span_name: Option<&'static str>,
    error_slug: Option<&'static str>,
}

pub open spec fn opt_view(o: Option<&'static str>) -> Option<Seq<char>> {
    match o {
        Some(s) => Some(s@),
        None => None,
    }
}

impl View for SpanConfig {
    type V = SpanConfigView;

    closed spec fn view(&self) -> SpanConfigView {
        SpanConfigView {
            service_name: self.service_name@,
            span_name: self.span_name@,
            error_slug: self.error_slug@,
        }
    }
}

impl View for SpanConfigBuilder {
    type V = SpanConfigBuilderView;

    closed spec fn view(&self) -> SpanConfigBuilderView {
        SpanConfigBuilderView {
            service_name: opt_view(self.service_name),
            span_name: opt_view(self.span_name),
            error_slug: opt_view(self.error_slug),
        }
    }
}

/// The configuration that a builder with these fields builds: the error slug
/// falls back to [`DEFAULT_ERROR_SLUG`].
pub open spec fn built_config(b: SpanConfigBuilderView) -> SpanConfigView {
    SpanConfigView {
        service_name: b.service_name->0,
        span_name: b.span_name->0,
        error_slug: match b.error_slug {
            Some(s) => s,
            None => DEFAULT_ERROR_SLUG@,
        },
    }
}

/// A builder can build exactly when both mandatory fields are set.
pub open spec fn buildable(b: SpanConfigBuilderView) -> bool {
    b.service_name is Some && b.span_name is Some
}

/// A built configuration keeps the service and span names that were set;
/// its error slug is the one set, or `otel-wasi-error` when none was. The
/// order in which the fields are set does not matter, and setting a field
/// again replaces its earlier value.
pub proof fn lemma_built_config(b: SpanConfigBuilderView, x: Seq<char>, y: Seq<char>)
    requires
        buildable(b),
    ensures
        built_config(b).service_name == b.service_name->0,
        built_config(b).span_name == b.span_name->0,
        built_config(b).error_slug == if b.error_slug is Some {
            b.error_slug->0
        } else {
            "otel-wasi-error"@
        },
        (SpanConfigBuilderView { span_name: Some(y), ..SpanConfigBuilderView { service_name: Some(x), ..b } })
            == (SpanConfigBuilderView { service_name: Some(x), ..SpanConfigBuilderView { span_name: Some(y), ..b } }),
        built_config(SpanConfigBuilderView { error_slug: Some(y), ..SpanConfigBuilderView { error_slug: Some(x), ..b } }).error_slug == y,
{
}

impl SpanConfig {
    /// A builder with no field set.
    pub fn builder() -> (b: SpanConfigBuilder)
        ensures
            b@ == (SpanConfigBuilderView { service_name: None, span_name: None, error_slug: None }),
    {
        SpanConfigBuilder::default()
    }

    pub fn service_name(&self) -> (r: &'static str)
        ensures
            r@ == self@.service_name,
    {
        self.service_name
    }

    pub fn span_name(&self) -> (r: &'static str)
        ensures
            r@ == self@.span_name,
    {
        self.span_name
    }

    pub fn error_slug(&self) -> (r: &'static str)
        ensures
            r@ == self@.error_slug,
    {
        self.error_slug
    }
}

impl Default for SpanConfigBuilder {
    fn default() -> (b: SpanConfigBuilder)
        ensures
            b@ == (SpanConfigBuilderView { service_name: None, span_name: None, error_slug: None }),
    {
        SpanConfigBuilder { service_name: None, span_name: None, error_slug: None }
    }
}

impl SpanConfigBuilder {
    pub fn service_name(self, service_name: &'static str) -> (b: SpanConfigBuilder)
        ensures
            b@ == (SpanConfigBuilderView { service_name: Some(service_name@), ..self@ }),
    {
        let mut this = self;
        this.service_name = Some(service_name);
        this
    }

    pub fn span_name(self, span_name: &'static str) -> (b: SpanConfigBuilder)
        ensures
            b@ == (SpanConfigBuilderView { span_name: Some(span_name@), ..self@ }),
    {
        let mut this = self;
        this.span_name = Some(span_name);
        this
    }

    pub fn error_slug(self, error_slug: &'static str) -> (b: SpanConfigBuilder)
        ensures
            b@ == (SpanConfigBuilderView { error_slug: Some(error_slug@), ..self@ }),
    {
        let mut this = self;
        this.error_slug = Some(error_slug);
        this
    }

    /// Builds the configuration; both `service_name` and `span_name` must have been set.
    pub fn build(self) -> (c: SpanConfig)
        requires
            buildable(self@),
        ensures
            c@ == built_config(self@),
    {
        let service_name = self.service_name.unwrap();
        let span_name = self.span_name.unwrap();
        let error_slug = match self.error_slug {
            Some(s) => s,
            None => DEFAULT_ERROR_SLUG,
        };
        SpanConfig { service_name, span_name, error_slug }
    }

    /// Builds the configuration if both mandatory fields were set.
    pub fn try_build(self) -> (c: Option<SpanConfig>)
        ensures
            c is Some <==> buildable(self@),
            c matches Some(c) ==> c@ == built_config(self@),
    {
        if self.service_name.is_some() && self.span_name.is_some() {
            Some(self.build())
        } else {
            None
        }
    }
}

} // verus!
