use crate::args::{ArgsView, InstrumentArgs};
use crate::text::{str_eq, str_to_string, string_push};
use vstd::prelude::*;

verus! {

// ---------------------------------------------------------------------------
// The shape of a type, as far as `#[wasi_instrument]` reads it.
// ---------------------------------------------------------------------------

/// A type of the instrumented function's signature, reduced to what the
/// attribute reads: for a path type, its last segment.
pub enum TypeShape {
    /// A path type; `None` when the path has no segment.
    Path(Option<Segment>),
    /// Any other kind of type.
    Other,
}

/// The last segment of a path type: its identifier and its arguments.
pub struct Segment {
    pub ident: String,
    pub arguments: SegmentArguments,
}

pub enum SegmentArguments {
    NoArguments,
    /// `<...>`, one entry per generic argument.
    AngleBracketed(Vec<GenericArgument>),
    /// `(...) -> ...`
    Parenthesized,
}

pub enum GenericArgument {
    Type(TypeShape),
    /// A lifetime, a const, a binding or a constraint.
    Other,
}

/// The return type of the instrumented function.
pub enum ReturnShape {
    /// No return type written.
    Default,
    Type(TypeShape),
}

/// What stands in `E` for `otel_wasi::Error<E>`.
#[derive(Debug, PartialEq, Eq, Structural, Clone, Copy)]
pub enum ErrorInner {
    /// The first generic argument of `Error<...>` (a type).
    FirstArgument,
    /// A bare `Error`, whose parameter defaults to `String`.
    DefaultString,
}

/// The path type's last segment, when `t` is a path type with one.
pub open spec fn last_segment(t: TypeShape) -> Option<Segment> {
    match t {
        TypeShape::Path(seg) => seg,
        TypeShape::Other => None,
    }
}

/// Positions, among the angle-bracketed arguments, of the arguments that are types.
pub open spec fn type_positions(args: Seq<GenericArgument>) -> Seq<int>
    decreases args.len(),
{
    if args.len() == 0 {
        Seq::empty()
    } else {
        let rest = type_positions(args.drop_last());
        match args.last() {
            GenericArgument::Type(_) => rest.push(args.len() - 1),
            GenericArgument::Other => rest,
        }
    }
}

/// `Result<T, E>`: the positions of `T` and `E`, the first two type
/// arguments of a path type whose last segment is `Result`.
pub open spec fn result_types(t: TypeShape) -> Option<(int, int)> {
    match last_segment(t) {
        Some(seg) => if seg.ident@ == "Result"@ {
            match seg.arguments {
                SegmentArguments::AngleBracketed(args) => {
                    let ps = type_positions(args@);
                    if ps.len() >= 2 {
                        Some((ps[0], ps[1]))
                    } else {
                        None
                    }
                },
                _ => None,
            }
        } else {
            None
        },
        None => None,
    }
}

/// `Error<E>` or a bare `Error`: what stands for `E`.
pub open spec fn otel_error_inner(t: TypeShape) -> Option<ErrorInner> {
    match last_segment(t) {
        Some(seg) => if seg.ident@ == "Error"@ {
            match seg.arguments {
                SegmentArguments::AngleBracketed(args) => if args.len() > 0 && args@[0] is Type {
                    Some(ErrorInner::FirstArgument)
                } else {
                    None
                },
                SegmentArguments::NoArguments => Some(ErrorInner::DefaultString),
                SegmentArguments::Parenthesized => None,
            }
        } else {
            None
        },
        None => None,
    }
}

/// A path type whose last segment is `Result`.
pub open spec fn is_result(t: TypeShape) -> bool {
    match last_segment(t) {
        Some(seg) => seg.ident@ == "Result"@,
        None => false,
    }
}

fn last_segment_of(t: &TypeShape) -> (r: Option<&Segment>)
    ensures
        match last_segment(*t) {
            Some(s) => r == Some(&s),
            None => r is None,
        },
{
    match t {
        TypeShape::Path(Some(seg)) => Some(seg),
        _ => None,
    }
}

/// Positions of `T` and `E` in `Result<T, E>`.
pub fn extract_result_types(t: &TypeShape) -> (r: Option<(usize, usize)>)
    ensures
        match result_types(*t) {
            Some((ok, err)) => r == Some((ok as usize, err as usize)) && 0 <= ok && 0 <= err
                && ok <= usize::MAX && err <= usize::MAX,
            None => r is None,
        },
{
    let seg = match last_segment_of(t) {
        Some(seg) => seg,
        None => return None,
    };
    if !str_eq(seg.ident.as_str(), "Result") {
        return None;
    }
    match &seg.arguments {
        SegmentArguments::AngleBracketed(args) => {
            let ghost all = args@;
            let mut found: Vec<usize> = Vec::new();
            let mut i: usize = 0;
            while i < args.len() && found.len() < 2
                invariant
                    all == args@,
                    i <= args@.len(),
                    found.len() <= 2,
                    found@.len() == type_positions(all.take(i as int)).len()
                        || (found@.len() == 2 && type_positions(all.take(i as int)).len() >= 2),
                    forall|j: int|
                        0 <= j < found@.len() ==> found@[j] == #[trigger] type_positions(
                            all.take(i as int),
                        )[j],
                    forall|j: int| 0 <= j < found@.len() ==> found@[j] < i,
                decreases args@.len() - i,
            {
                proof {
                    lemma_type_positions_prefix(all, i as int);
                }
                match &args[i] {
                    GenericArgument::Type(_) => {
                        found.push(i);
                    },
                    GenericArgument::Other => {},
                }
                i = i + 1;
            }
            proof {
                lemma_type_positions_bounded(all);
                if found@.len() < 2 {
                    assert(all.take(i as int) =~= all);
                } else {
                    lemma_type_positions_extend(all, i as int);
                }
            }
            if found.len() >= 2 {
                Some((found[0], found[1]))
            } else {
                None
            }
        },
        _ => None,
    }
}

proof fn lemma_type_positions_prefix(args: Seq<GenericArgument>, i: int)
    requires
        0 <= i < args.len(),
    ensures
        type_positions(args.take(i + 1)) == match args[i] {
            GenericArgument::Type(_) => type_positions(args.take(i)).push(i),
            GenericArgument::Other => type_positions(args.take(i)),
        },
{
    assert(args.take(i + 1).drop_last() =~= args.take(i));
}

proof fn lemma_type_positions_are_types(args: Seq<GenericArgument>)
    ensures
        forall|j: int|
            0 <= j < type_positions(args).len() ==> args[#[trigger] type_positions(args)[j]] is Type,
    decreases args.len(),
{
    if args.len() > 0 {
        let rest = args.drop_last();
        lemma_type_positions_are_types(rest);
        lemma_type_positions_bounded(rest);
        assert forall|j: int| 0 <= j < type_positions(args).len() implies args[#[trigger] type_positions(
            args,
        )[j]] is Type by {
            if j < type_positions(rest).len() {
                assert(type_positions(args)[j] == type_positions(rest)[j]);
                assert(rest[type_positions(rest)[j]] == args[type_positions(rest)[j]]);
            }
        }
    }
}

proof fn lemma_type_positions_bounded(args: Seq<GenericArgument>)
    ensures
        forall|j: int|
            0 <= j < type_positions(args).len() ==> 0 <= #[trigger] type_positions(args)[j] < args.len(),
    decreases args.len(),
{
    if args.len() > 0 {
        let rest = args.drop_last();
        lemma_type_positions_bounded(rest);
        assert forall|j: int| 0 <= j < type_positions(args).len() implies 0 <= #[trigger] type_positions(
            args,
        )[j] < args.len() by {
            if j < type_positions(rest).len() {
                assert(type_positions(args)[j] == type_positions(rest)[j]);
            }
        }
    }
}

/// The positions found are increasing, and they are exactly the positions
/// of the arguments that are types.
proof fn lemma_type_positions_exact(args: Seq<GenericArgument>)
    ensures
        forall|a: int, b: int|
            0 <= a < b < type_positions(args).len() ==> #[trigger] type_positions(args)[a]
                < #[trigger] type_positions(args)[b],
        forall|j: int| 0 <= j < args.len() ==> (#[trigger] args[j] is Type <==> type_positions(args).contains(j)),
    decreases args.len(),
{
    if args.len() > 0 {
        let rest = args.drop_last();
        let n = args.len() - 1;
        lemma_type_positions_exact(rest);
        lemma_type_positions_bounded(rest);
        let rp = type_positions(rest);
        let tp = type_positions(args);
        assert forall|j: int| 0 <= j < args.len() implies (#[trigger] args[j] is Type <==> tp.contains(j)) by {
            if j < n {
                assert(args[j] == rest[j]);
                if rp.contains(j) {
                    let k = choose|k: int| 0 <= k < rp.len() && rp[k] == j;
                    assert(tp[k] == j);
                }
                if tp.contains(j) {
                    let k = choose|k: int| 0 <= k < tp.len() && tp[k] == j;
                    if k < rp.len() {
                        assert(rp[k] == j);
                    }
                }
            } else {
                if args[j] is Type {
                    assert(tp[rp.len() as int] == j);
                } else {
                    if tp.contains(j) {
                        let k = choose|k: int| 0 <= k < tp.len() && tp[k] == j;
                        assert(rp[k] < n);
                    }
                }
            }
        }
        assert forall|a: int, b: int| 0 <= a < b < tp.len() implies #[trigger] tp[a] < #[trigger] tp[b] by {
            if b < rp.len() {
                assert(tp[a] == rp[a] && tp[b] == rp[b]);
            } else {
                assert(tp[a] == rp[a]);
            }
        }
    }
}

/// The generic arguments of a `Result<...>` path type, when `t` is one.
pub open spec fn result_arguments(t: TypeShape) -> Option<Seq<GenericArgument>> {
    match last_segment(t) {
        Some(seg) => if seg.ident@ == "Result"@ {
            match seg.arguments {
                SegmentArguments::AngleBracketed(args) => Some(args@),
                _ => None,
            }
        } else {
            None
        },
        None => None,
    }
}

/// `Result<T, E>` names, as `T` and `E`, the first and the second argument of
/// a `Result` path that is a type, and finds them exactly when there are
/// two such arguments.
pub proof fn lemma_result_types(t: TypeShape)
    ensures
        result_types(t) matches Some((ok, err)) ==> (result_arguments(t) matches Some(args) && {
            &&& 0 <= ok < err < args.len()
            &&& args[ok] is Type
            &&& args[err] is Type
            &&& forall|j: int| 0 <= j < err && j != ok ==> !(#[trigger] args[j] is Type)
        }),
        (result_arguments(t) matches Some(args) && exists|i: int, j: int|
            0 <= i < j < args.len() && #[trigger] args[i] is Type && #[trigger] args[j] is Type)
            ==> result_types(t) is Some,
        result_arguments(t) is None ==> result_types(t) is None,
{
    if let Some(a) = result_arguments(t) {
        lemma_type_positions_exact(a);
        lemma_type_positions_bounded(a);
        let tp = type_positions(a);
        if tp.len() >= 2 {
            assert(tp.contains(tp[0]));
            assert(tp.contains(tp[1]));
            assert forall|j: int| 0 <= j < tp[1] && j != tp[0] implies !(#[trigger] a[j] is Type) by {
                if a[j] is Type {
                    assert(tp.contains(j));
                    let k = choose|k: int| 0 <= k < tp.len() && tp[k] == j;
                    if k >= 2 {
                        assert(tp[1] < tp[k]);
                    }
                }
            }
        }
        if exists|i: int, j: int| 0 <= i < j < a.len() && #[trigger] a[i] is Type && #[trigger] a[j] is Type {
            let (i, j) = choose|i: int, j: int|
                0 <= i < j < a.len() && #[trigger] a[i] is Type && #[trigger] a[j] is Type;
            assert(tp.contains(i));
            assert(tp.contains(j));
            let ki = choose|k: int| 0 <= k < tp.len() && tp[k] == i;
            let kj = choose|k: int| 0 <= k < tp.len() && tp[k] == j;
            assert(ki != kj);
        }
    }
}

/// Extending a prefix keeps the positions found in it.
proof fn lemma_type_positions_extend(args: Seq<GenericArgument>, i: int)
    requires
        0 <= i <= args.len(),
    ensures
        type_positions(args).len() >= type_positions(args.take(i)).len(),
        forall|j: int|
            0 <= j < type_positions(args.take(i)).len() ==> #[trigger] type_positions(args)[j]
                == type_positions(args.take(i))[j],
    decreases args.len() - i,
{
    if i == args.len() {
        assert(args.take(i) =~= args);
    } else {
        lemma_type_positions_extend(args, i + 1);
        lemma_type_positions_prefix(args, i);
    }
}

/// What stands for `E` in `otel_wasi::Error<E>`.
pub fn extract_otel_error_inner(t: &TypeShape) -> (r: Option<ErrorInner>)
    ensures
        r == otel_error_inner(*t),
{
    let seg = match last_segment_of(t) {
        Some(seg) => seg,
        None => return None,
    };
    if !str_eq(seg.ident.as_str(), "Error") {
        return None;
    }
    match &seg.arguments {
        SegmentArguments::AngleBracketed(args) => {
            if args.len() > 0 {
                match &args[0] {
                    GenericArgument::Type(_) => Some(ErrorInner::FirstArgument),
                    GenericArgument::Other => None,
                }
            } else {
                None
            }
        },
        SegmentArguments::NoArguments => Some(ErrorInner::DefaultString),
        SegmentArguments::Parenthesized => None,
    }
}

/// Whether `t` is a path type whose last segment is `Result`.
pub fn is_result_type(t: &TypeShape) -> (r: bool)
    ensures
        r == is_result(*t),
{
    match last_segment_of(t) {
        Some(seg) => str_eq(seg.ident.as_str(), "Result"),
        None => false,
    }
}

// ---------------------------------------------------------------------------
// Span names
// ---------------------------------------------------------------------------

/// A function name with every `_` replaced by `-`.
pub open spec fn dashed(name: Seq<char>) -> Seq<char> {
    name.map_values(|c: char| if c == '_' { '-' } else { c })
}

/// The default span name of a function: its name with `_` replaced by `-`.
pub fn default_span_name(fn_name: &str) -> (r: String)
    ensures
        r@ == dashed(fn_name@),
{
    let n = fn_name.unicode_len();
    let mut out = String::new();
    let mut i: usize = 0;
    while i < n
        invariant
            n == fn_name@.len(),
            i <= n,
            out@ == dashed(fn_name@.take(i as int)),
        decreases n - i,
    {
        let c = fn_name.get_char(i);
        if c == '_' {
            string_push(&mut out, '-');
        } else {
            string_push(&mut out, c);
        }
        i = i + 1;
        assert(dashed(fn_name@.take(i as int)) =~= dashed(fn_name@.take(i - 1)).push(
            if c == '_' { '-' } else { c },
        ));
    }
    assert(fn_name@.take(n as int) =~= fn_name@);
    out
}


// ---------------------------------------------------------------------------
// Planning the expansion of `#[wasi_instrument]`
// ---------------------------------------------------------------------------

/// How the expansion ends the root span once the body has run.
#[derive(Debug, PartialEq, Eq, Structural, Clone, Copy)]
pub enum FinishPlan {
    /// No return type: the body's `()` goes to `finish`, which records OK.
    Unit,
    /// A return type that is not a `Result`: `finish_ok`.
    Plain,
    /// A `Result` return type: `finish` records OK or the error.
    Outcome,
    /// `export`: the signature returns `Result<T, E>` (`T` at position `ok`
    /// of the written return type's arguments, `E` given by `inner`) while the
    /// body keeps `Result<T, otel_wasi::Error<E>>`; `finish` records the
    /// outcome and the error is unwrapped at the boundary.
    Export { ok: usize, err: usize, inner: ErrorInner },
}

/// Why `#[wasi_instrument]` refused a function.
#[derive(Debug, PartialEq, Eq, Structural, Clone, Copy)]
pub enum PlanError {
    /// `service = "..."` was not given.
    MissingService,
    /// `export` on a function that does not return `Result<T, E>`.
    ExportNeedsResult,
    /// `export` on a function whose error type is not `otel_wasi::Error<E>`.
    ExportErrorType,
}

/// What the expansion of `#[wasi_instrument]` does for one function.
pub struct InstrumentPlan {
    pub service: String,
    pub span_name: String,
    /// Whether static attributes are recorded on entry.
    pub record_attributes: bool,
    pub is_async: bool,
    pub finish: FinishPlan,
    /// Whether the root span takes its parent from `parent = <expr>`
    /// rather than from the WASI runtime.
    pub explicit_parent: bool,
}

pub struct PlanView {
    pub service: Seq<char>,
    pub span_name: Seq<char>,
    pub record_attributes: bool,
    pub is_async: bool,
    pub finish: FinishPlan,
    pub explicit_parent: bool,
}

impl View for InstrumentPlan {
    type V = PlanView;

    open spec fn view(&self) -> PlanView {
        PlanView {
            service: self.service@,
            span_name: self.span_name@,
            record_attributes: self.record_attributes,
            is_async: self.is_async,
            finish: self.finish,
            explicit_parent: self.explicit_parent,
        }
    }
}

/// The type at argument position `p` of a path type's last segment.
pub open spec fn argument_type(t: TypeShape, p: int) -> Option<TypeShape> {
    match last_segment(t) {
        Some(seg) => match seg.arguments {
            SegmentArguments::AngleBracketed(args) => if 0 <= p < args.len() {
                match args@[p] {
                    GenericArgument::Type(a) => Some(a),
                    GenericArgument::Other => None,
                }
            } else {
                None
            },
            _ => None,
        },
        None => None,
    }
}

/// How an exported function's span ends, or why it cannot be exported.
pub open spec fn export_plan(ret: ReturnShape) -> Result<FinishPlan, PlanError> {
    match ret {
        ReturnShape::Default => Err(PlanError::ExportNeedsResult),
        ReturnShape::Type(t) => match result_types(t) {
            None => Err(PlanError::ExportNeedsResult),
            Some((ok, err)) => match argument_type(t, err) {
                Some(e) => match otel_error_inner(e) {
                    Some(inner) => Ok(FinishPlan::Export { ok: ok as usize, err: err as usize, inner }),
                    None => Err(PlanError::ExportErrorType),
                },
                None => Err(PlanError::ExportErrorType),
            },
        },
    }
}

/// How a function's span ends when it is not exported.
pub open spec fn local_plan(ret: ReturnShape) -> FinishPlan {
    match ret {
        ReturnShape::Default => FinishPlan::Unit,
        ReturnShape::Type(t) => if is_result(t) {
            FinishPlan::Outcome
        } else {
            FinishPlan::Plain
        },
    }
}

/// What `#[wasi_instrument]` with options `args` does for the function
/// `fn_name` returning `ret`: a service is required; the span is named
/// `name` or, by default, the function's name with `-` for `_`; the parent
/// context comes from `parent = <expr>` when given.
pub open spec fn plan_spec(args: ArgsView, fn_name: Seq<char>, ret: ReturnShape, is_async: bool) -> Result<PlanView, PlanError> {
    match args.service {
        None => Err(PlanError::MissingService),
        Some(service) => {
            let span_name = match args.name {
                Some(n) => n,
                None => dashed(fn_name),
            };
            let finish = if args.export {
                export_plan(ret)
            } else {
                Ok(local_plan(ret))
            };
            match finish {
                Ok(finish) => Ok(
                    PlanView {
                        service,
                        span_name,
                        record_attributes: args.attributes.len() > 0,
                        is_async,
                        finish,
                        explicit_parent: args.parent is Some,
                    },
                ),
                Err(e) => Err(e),
            }
        },
    }
}

/// The text with which a refused function is reported.
pub open spec fn plan_error_text(e: PlanError) -> Seq<char> {
    match e {
        PlanError::MissingService => "#[wasi_instrument] requires `service = \"...\"`"@,
        PlanError::ExportNeedsResult => "#[wasi_instrument(export)] requires a `Result<T, E>` return type"@,
        PlanError::ExportErrorType => "#[wasi_instrument(export)] error type must be `otel_wasi::Error<E>` (e.g. `otel_wasi::Error` or `otel_wasi::Error<ErrorCode>`)"@,
    }
}

impl PlanError {
    /// The text with which this refusal is reported.
    pub fn message(&self) -> (m: String)
        ensures
            m@ == plan_error_text(*self),
    {
        match self {
            PlanError::MissingService => str_to_string("#[wasi_instrument] requires `service = \"...\"`"),
            PlanError::ExportNeedsResult => str_to_string(
                "#[wasi_instrument(export)] requires a `Result<T, E>` return type",
            ),
            PlanError::ExportErrorType => str_to_string(
                "#[wasi_instrument(export)] error type must be `otel_wasi::Error<E>` (e.g. `otel_wasi::Error` or `otel_wasi::Error<ErrorCode>`)",
            ),
        }
    }
}

pub open spec fn plan_result_view(r: Result<InstrumentPlan, PlanError>) -> Result<PlanView, PlanError> {
    match r {
        Ok(p) => Ok(p@),
        Err(e) => Err(e),
    }
}

fn argument_type_of(t: &TypeShape, p: usize) -> (r: Option<&TypeShape>)
    ensures
        match argument_type(*t, p as int) {
            Some(a) => r == Some(&a),
            None => r is None,
        },
{
    match last_segment_of(t) {
        Some(seg) => match &seg.arguments {
            SegmentArguments::AngleBracketed(args) => if p < args.len() {
                match &args[p] {
                    GenericArgument::Type(a) => Some(a),
                    GenericArgument::Other => None,
                }
            } else {
                None
            },
            _ => None,
        },
        None => None,
    }
}

fn plan_export(ret: &ReturnShape) -> (r: Result<FinishPlan, PlanError>)
    ensures
        r == export_plan(*ret),
{
    match ret {
        ReturnShape::Default => Err(PlanError::ExportNeedsResult),
        ReturnShape::Type(t) => match extract_result_types(t) {
            None => Err(PlanError::ExportNeedsResult),
            Some((ok, err)) => match argument_type_of(t, err) {
                Some(e) => match extract_otel_error_inner(e) {
                    Some(inner) => Ok(FinishPlan::Export { ok, err, inner }),
                    None => Err(PlanError::ExportErrorType),
                },
                None => Err(PlanError::ExportErrorType),
            },
        },
    }
}

fn plan_local(ret: &ReturnShape) -> (r: FinishPlan)
    ensures
        r == local_plan(*ret),
{
    match ret {
        ReturnShape::Default => FinishPlan::Unit,
        ReturnShape::Type(t) => if is_result_type(t) {
            FinishPlan::Outcome
        } else {
            FinishPlan::Plain
        },
    }
}

/// Decides what `#[wasi_instrument]` generates for a function, or why it
/// refuses it.
pub fn plan_instrument(args: &InstrumentArgs, fn_name: &str, ret: &ReturnShape, is_async: bool) -> (r: Result<InstrumentPlan, PlanError>)
    ensures
        plan_result_view(r) == plan_spec(args@, fn_name@, *ret, is_async),
{
    let service = match &args.service {
        Some(s) => s.clone(),
        None => {
            return Err(PlanError::MissingService);
        },
    };
    let span_name = match &args.name {
        Some(n) => n.clone(),
        None => default_span_name(fn_name),
    };
    let finish = if args.export {
        match plan_export(ret) {
            Ok(f) => f,
            Err(e) => {
                return Err(e);
            },
        }
    } else {
        plan_local(ret)
    };
    Ok(InstrumentPlan {
        service,
        span_name,
        record_attributes: args.attributes.len() > 0,
        is_async,
        finish,
        explicit_parent: args.parent.is_some(),
    })
}


/// The default span name keeps the function name's length and holds no `_`:
/// each `_` becomes `-` and every other character stays.
pub proof fn lemma_dashed_name(name: Seq<char>)
    ensures
        dashed(name).len() == name.len(),
        forall|i: int| 0 <= i < name.len() ==> #[trigger] dashed(name)[i] != '_',
        forall|i: int|
            0 <= i < name.len() ==> (#[trigger] dashed(name)[i] == if name[i] == '_' {
                '-'
            } else {
                name[i]
            }),
{
}

/// A planned span is named by `name = "..."` when the arguments give one;
/// only without it is it named after the function, every `_` of the
/// function's name turned into `-` and every other character kept. The
/// service is the one given, and the name given has no say in whether the
/// function is accepted.
pub proof fn lemma_span_name(args: ArgsView, fn_name: Seq<char>, ret: ReturnShape, is_async: bool)
    ensures
        plan_spec(args, fn_name, ret, is_async) matches Ok(p) ==> {
            &&& args.service == Some(p.service)
            &&& (args.name matches Some(n) ==> p.span_name == n)
            &&& (args.name is None ==> p.span_name.len() == fn_name.len() && forall|i: int|
                0 <= i < fn_name.len() ==> #[trigger] p.span_name[i] == if fn_name[i] == '_' {
                    '-'
                } else {
                    fn_name[i]
                })
        },
        plan_spec(args, fn_name, ret, is_async) is Ok <==> plan_spec(
            ArgsView { name: None, ..args },
            fn_name,
            ret,
            is_async,
        ) is Ok,
{
}

/// Without `export`, a function with no return type ends its span through
/// `finish` on `()`, one returning a `Result` path type through `finish` on
/// its result, and any other through `finish_ok`. Whatever the options,
/// static attributes are recorded on entry exactly when some are given, the
/// parent context comes from `parent = ..` exactly when it is given, and an
/// async function is planned as async.
pub proof fn lemma_plan_choices(args: ArgsView, fn_name: Seq<char>, ret: ReturnShape, is_async: bool)
    ensures
        plan_spec(args, fn_name, ret, is_async) matches Ok(p) ==> (p.record_attributes == (args.attributes.len()
            > 0) && p.explicit_parent == (args.parent is Some) && p.is_async == is_async),
        args.service is Some && !args.export ==> (plan_spec(args, fn_name, ret, is_async) matches Ok(p)
            && p.finish == match ret {
            ReturnShape::Default => FinishPlan::Unit,
            ReturnShape::Type(t) => if last_segment(t) is Some && last_segment(t)->0.ident@ == "Result"@ {
                FinishPlan::Outcome
            } else {
                FinishPlan::Plain
            },
        }),
{
}

/// The error type of an exported function stands for `E` as follows: a bare
/// `Error` for `String`, `Error<E, ..>` for its first argument when that is
/// a type; a path ending in any other name stands for nothing. An accepted
/// export plan names as `T` and `E` the positions that `Result<T, E>` gives.
pub proof fn lemma_error_inner(t: TypeShape, ret: ReturnShape, args: ArgsView, fn_name: Seq<char>, is_async: bool)
    ensures
        last_segment(t) is None ==> otel_error_inner(t) is None,
        last_segment(t) matches Some(seg) ==> (if seg.ident@ != "Error"@ {
            otel_error_inner(t) is None
        } else {
            match seg.arguments {
                SegmentArguments::NoArguments => otel_error_inner(t) == Some(ErrorInner::DefaultString),
                SegmentArguments::AngleBracketed(a) => otel_error_inner(t) == if a.len() > 0 && a@[0] is Type {
                    Some(ErrorInner::FirstArgument)
                } else {
                    None::<ErrorInner>
                },
                SegmentArguments::Parenthesized => otel_error_inner(t) is None,
            }
        }),
        args.export ==> (plan_spec(args, fn_name, ret, is_async) matches Ok(p) ==> (ret matches ReturnShape::Type(
            r,
        ) && result_types(r) is Some && p.finish is Export && p.finish->ok == (result_types(r)->0).0
            && p.finish->err == (result_types(r)->0).1)),
{
    if let ReturnShape::Type(r) = ret {
        lemma_result_types(r);
        if let Some(seg) = last_segment(r) {
            if let SegmentArguments::AngleBracketed(a) = seg.arguments {
                assert(a.len() == a@.len());
            }
        }
    }
}

/// Without `service = "..."` every function is refused, whatever else is given.
pub proof fn lemma_service_is_required(args: ArgsView, fn_name: Seq<char>, ret: ReturnShape, is_async: bool)
    requires
        args.service is None,
    ensures
        plan_spec(args, fn_name, ret, is_async) == Err::<PlanView, PlanError>(PlanError::MissingService),
{
}

/// Without `export`, a function with a service is always accepted: its span
/// ends through `finish` for `()` and `Result` returns and through
/// `finish_ok` for any other return type.
pub proof fn lemma_local_functions_accepted(args: ArgsView, fn_name: Seq<char>, ret: ReturnShape, is_async: bool)
    requires
        args.service is Some,
        !args.export,
    ensures
        plan_spec(args, fn_name, ret, is_async) matches Ok(p) && p.finish == local_plan(ret)
            && p.service == args.service->0 && p.is_async == is_async,
        local_plan(ret) == FinishPlan::Plain <==> (ret matches ReturnShape::Type(t) && !is_result(t)),
{
}

/// The positions an export plan names are type arguments of the written
/// return type, and its error argument is `otel_wasi::Error<..>`.
pub open spec fn export_names_types(ret: ReturnShape, finish: FinishPlan) -> bool {
    match (ret, finish) {
        (ReturnShape::Type(t), FinishPlan::Export { ok, err, inner }) => {
            &&& argument_type(t, ok as int) is Some
            &&& match argument_type(t, err as int) {
                Some(e) => otel_error_inner(e) == Some(inner),
                None => false,
            }
        },
        _ => false,
    }
}

/// `export` accepts exactly the functions returning `Result<T, E>` whose
/// `E` is `otel_wasi::Error<..>` (or a bare `Error`, standing for `String`).
pub proof fn lemma_export_accepts_otel_results(args: ArgsView, fn_name: Seq<char>, ret: ReturnShape, is_async: bool)
    requires
        args.service is Some,
        args.export,
    ensures
        plan_spec(args, fn_name, ret, is_async) is Ok <==> (ret matches ReturnShape::Type(t) && result_types(t) matches Some((ok, err)) && argument_type(t, err) matches Some(e) && otel_error_inner(e) is Some),
        plan_spec(args, fn_name, ret, is_async) matches Ok(p) ==> p.finish is Export,
        plan_spec(args, fn_name, ret, is_async) matches Ok(p) ==> export_names_types(ret, p.finish),
{
    if let ReturnShape::Type(t) = ret {
        if let Some(seg) = last_segment(t) {
            if let SegmentArguments::AngleBracketed(a) = seg.arguments {
                lemma_type_positions_are_types(a@);
                lemma_type_positions_bounded(a@);
            }
        }
    }
}

} // verus!
