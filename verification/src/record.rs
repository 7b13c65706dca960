use crate::text::str_to_string;
use vstd::prelude::*;

verus! {

/// Value of a span attribute.
#[derive(Debug, PartialEq, Eq)]
pub enum AttributeValue {
    Str(String),
    StaticStr(&'static str),
    I64(i64),
    Bool(bool),
}

/// A span attribute: a static key and its value.
#[derive(Debug, PartialEq, Eq)]
pub struct Attribute {
    pub key: &'static str,
    pub value: AttributeValue,
}

/// Status given to a span when it ends.
#[derive(Debug, PartialEq, Eq)]
pub enum SpanStatus {
    Succeeded,
    Failed(String),
    FailedStatic(&'static str),
}

/// One write made on a span: an attribute or its status.
#[derive(Debug, PartialEq, Eq)]
pub enum SpanWrite {
    Attribute(Attribute),
    Status(SpanStatus),
}

pub enum ValueView {
    Str(Seq<char>),
    I64(i64),
    Bool(bool),
}

pub enum StatusView {
    Succeeded,
    Failed(Seq<char>),
}

pub enum WriteView {
    Attribute { key: Seq<char>, value: ValueView },
    Status(StatusView),
}

impl View for AttributeValue {
    type V = ValueView;

    open spec fn view(&self) -> ValueView {
        match self {
            AttributeValue::Str(s) => ValueView::Str(s@),
            AttributeValue::StaticStr(s) => ValueView::Str(s@),
            AttributeValue::I64(i) => ValueView::I64(*i),
            AttributeValue::Bool(b) => ValueView::Bool(*b),
        }
    }
}

impl View for SpanStatus {
    type V = StatusView;

    open spec fn view(&self) -> StatusView {
        match self {
            SpanStatus::Succeeded => StatusView::Succeeded,
            SpanStatus::Failed(m) => StatusView::Failed(m@),
            SpanStatus::FailedStatic(m) => StatusView::Failed(m@),
        }
    }
}

impl View for SpanWrite {
    type V = WriteView;

    open spec fn view(&self) -> WriteView {
        match self {
            SpanWrite::Attribute(a) => WriteView::Attribute { key: a.key@, value: a.value@ },
            SpanWrite::Status(s) => WriteView::Status(s@),
        }
    }
}

pub open spec fn writes_view(ws: Seq<SpanWrite>) -> Seq<WriteView> {
    ws.map_values(|w: SpanWrite| w@)
}

/// The characters of an optional string.
pub open spec fn opt_str_view(o: Option<&str>) -> Option<Seq<char>> {
    match o {
        Some(s) => Some(s@),
        None => None,
    }
}

/// The writes that set the attributes `attrs`, in order.
pub open spec fn attribute_writes(attrs: Seq<Attribute>) -> Seq<WriteView> {
    attrs.map_values(|a: Attribute| WriteView::Attribute { key: a.key@, value: a.value@ })
}

pub open spec fn attr(key: Seq<char>, value: ValueView) -> WriteView {
    WriteView::Attribute { key, value }
}

/// What a span records when it ends in error: the error flag, the slug and
/// the message as attributes, then an error status carrying the message.
pub open spec fn error_writes(slug: Seq<char>, message: Seq<char>) -> Seq<WriteView> {
    seq![
        attr("error"@, ValueView::Bool(true)),
        attr("exception.slug"@, ValueView::Str(slug)),
        attr("exception.message"@, ValueView::Str(message)),
        WriteView::Status(StatusView::Failed(message)),
    ]
}

/// What a span records when it ends successfully.
pub open spec fn ok_writes() -> Seq<WriteView> {
    seq![WriteView::Status(StatusView::Succeeded)]
}

/// The attribute recording how many milliseconds a span lasted (wrapping
/// into `i64` as a numeric cast does).
pub open spec fn duration_write(millis: u128) -> WriteView {
    attr("duration_ms"@, ValueView::I64(millis as i64))
}

/// The attributes set on a root span when it is created.
pub open spec fn root_writes(
    trace_id: Seq<char>,
    service_name: Seq<char>,
    service_version: Seq<char>,
    git_hash: Option<Seq<char>>,
) -> Seq<WriteView> {
    seq![
        attr("trace_id"@, ValueView::Str(trace_id)),
        attr("service.name"@, ValueView::Str(service_name)),
        attr("service.version"@, ValueView::Str(service_version)),
    ] + match git_hash {
        Some(h) => seq![attr("service.build.git_hash"@, ValueView::Str(h))],
        None => Seq::empty(),
    }
}

/// Setting attributes `a1..an` makes exactly `n` writes, the `i`-th an
/// attribute with `ai`'s key and value; a longer list makes its shorter
/// prefix's writes first.
pub proof fn lemma_attribute_writes(attrs: Seq<Attribute>, more: Seq<Attribute>)
    ensures
        attribute_writes(attrs).len() == attrs.len(),
        forall|i: int|
            0 <= i < attrs.len() ==> #[trigger] attribute_writes(attrs)[i] == (WriteView::Attribute {
                key: attrs[i].key@,
                value: attrs[i].value@,
            }),
        attribute_writes(attrs + more) == attribute_writes(attrs) + attribute_writes(more),
{
    assert(attribute_writes(attrs + more) =~= attribute_writes(attrs) + attribute_writes(more));
}

/// A root span records its trace id, service name and service version, in
/// that order, whatever the git hash; a git hash, when given, adds one more
/// write, `service.build.git_hash`, and changes none of the others.
pub proof fn lemma_root_writes(
    trace_id: Seq<char>,
    service_name: Seq<char>,
    service_version: Seq<char>,
    git_hash: Option<Seq<char>>,
)
    ensures
        root_writes(trace_id, service_name, service_version, git_hash).len() == if git_hash is Some {
            4int
        } else {
            3int
        },
        root_writes(trace_id, service_name, service_version, git_hash)[0] == attr(
            "trace_id"@,
            ValueView::Str(trace_id),
        ),
        root_writes(trace_id, service_name, service_version, git_hash)[1] == attr(
            "service.name"@,
            ValueView::Str(service_name),
        ),
        root_writes(trace_id, service_name, service_version, git_hash)[2] == attr(
            "service.version"@,
            ValueView::Str(service_version),
        ),
        git_hash matches Some(h) ==> root_writes(trace_id, service_name, service_version, git_hash)[3]
            == attr("service.build.git_hash"@, ValueView::Str(h)),
        root_writes(trace_id, service_name, service_version, git_hash).take(3) == root_writes(
            trace_id,
            service_name,
            service_version,
            None,
        ),
{
    let ws = root_writes(trace_id, service_name, service_version, git_hash);
    assert(ws.take(3) =~= root_writes(trace_id, service_name, service_version, None));
}

impl Attribute {
    pub fn string(key: &'static str, value: String) -> (a: Attribute)
        ensures
            a.key == key,
            a.value@ == ValueView::Str(value@),
    {
        Attribute { key, value: AttributeValue::Str(value) }
    }

    pub fn integer(key: &'static str, value: i64) -> (a: Attribute)
        ensures
            a.key == key,
            a.value@ == ValueView::I64(value),
    {
        Attribute { key, value: AttributeValue::I64(value) }
    }

    pub fn boolean(key: &'static str, value: bool) -> (a: Attribute)
        ensures
            a.key == key,
            a.value@ == ValueView::Bool(value),
    {
        Attribute { key, value: AttributeValue::Bool(value) }
    }

    pub fn duplicate(&self) -> (a: Attribute)
        ensures
            a.key == self.key,
            a.value@ == self.value@,
    {
        let value = match &self.value {
            AttributeValue::Str(s) => AttributeValue::Str(s.clone()),
            AttributeValue::StaticStr(s) => AttributeValue::StaticStr(*s),
            AttributeValue::I64(i) => AttributeValue::I64(*i),
            AttributeValue::Bool(b) => AttributeValue::Bool(*b),
        };
        Attribute { key: self.key, value }
    }
}

impl SpanWrite {
    pub fn duplicate(&self) -> (w: SpanWrite)
        ensures
            w@ == self@,
    {
        match self {
            SpanWrite::Attribute(a) => SpanWrite::Attribute(a.duplicate()),
            SpanWrite::Status(SpanStatus::Succeeded) => SpanWrite::Status(SpanStatus::Succeeded),
            SpanWrite::Status(SpanStatus::Failed(m)) => SpanWrite::Status(SpanStatus::Failed(m.clone())),
            SpanWrite::Status(SpanStatus::FailedStatic(m)) => SpanWrite::Status(SpanStatus::FailedStatic(*m)),
        }
    }
}

pub fn attribute_write(key: &'static str, value: AttributeValue) -> (w: SpanWrite)
    ensures
        w@ == attr(key@, value@),
    opens_invariants none
    no_unwind
{
    SpanWrite::Attribute(Attribute { key, value })
}

/// The writes that end a span in error with `slug` and `message`.
pub fn error_record(slug: &'static str, message: String) -> (ws: Vec<SpanWrite>)
    ensures
        writes_view(ws@) == error_writes(slug@, message@),
{
    let mut ws: Vec<SpanWrite> = Vec::new();
    ws.push(attribute_write("error", AttributeValue::Bool(true)));
    ws.push(attribute_write("exception.slug", AttributeValue::StaticStr(slug)));
    ws.push(attribute_write("exception.message", AttributeValue::Str(message.clone())));
    ws.push(SpanWrite::Status(SpanStatus::Failed(message)));
    assert(writes_view(ws@) =~= error_writes(slug@, message@));
    ws
}

/// The writes that end a span successfully.
pub fn ok_record() -> (ws: Vec<SpanWrite>)
    ensures
        writes_view(ws@) == ok_writes(),
{
    let mut ws: Vec<SpanWrite> = Vec::new();
    ws.push(SpanWrite::Status(SpanStatus::Succeeded));
    assert(writes_view(ws@) =~= ok_writes());
    ws
}

/// The write recording a span's duration in milliseconds.
pub fn duration_record(millis: u128) -> (w: SpanWrite)
    ensures
        w@ == duration_write(millis),
    opens_invariants none
    no_unwind
{
    attribute_write("duration_ms", AttributeValue::I64(millis as i64))
}

/// The writes that open a root span.
pub fn root_record(
    trace_id: String,
    service_name: &str,
    service_version: &str,
    git_hash: Option<&str>,
) -> (ws: Vec<SpanWrite>)
    ensures
        writes_view(ws@) == root_writes(
            trace_id@,
            service_name@,
            service_version@,
            opt_str_view(git_hash),
        ),
{
    let mut ws: Vec<SpanWrite> = Vec::new();
    ws.push(attribute_write("trace_id", AttributeValue::Str(trace_id)));
    ws.push(attribute_write("service.name", AttributeValue::Str(str_to_string(service_name))));
    ws.push(attribute_write("service.version", AttributeValue::Str(str_to_string(service_version))));
    match git_hash {
        Some(h) => {
            ws.push(attribute_write("service.build.git_hash", AttributeValue::Str(str_to_string(h))));
        },
        None => {},
    }
    assert(writes_view(ws@) =~= root_writes(
        trace_id@,
        service_name@,
        service_version@,
        opt_str_view(git_hash),
    ));
    ws
}

} // verus!
