use crate::text::{str_eq, str_to_string};
use vstd::prelude::*;

verus! {

// The decisions of the `slug_on_wasi_error` lint: calling `with_slug` on a
// value, or `error_with_slug` on a result, whose (error) type already
// implements `WasiError` drops the slug it already carries.

/// The two slugging methods the lint watches.
#[derive(Debug, PartialEq, Eq, Structural, Clone, Copy)]
pub enum SlugMethod {
    WithSlug,
    ErrorWithSlug,
}

/// A generic argument of a type, as the lint reads it.
#[derive(Debug, PartialEq, Eq, Structural, Clone, Copy)]
pub enum GenericArgKind {
    Type,
    Lifetime,
    Const,
}

/// The receiver's type: an algebraic data type with its generic arguments,
/// or any other type.
pub enum ReceiverType {
    Adt(Vec<GenericArgKind>),
    Other,
}

/// Which type the lint asks about.
#[derive(Debug, PartialEq, Eq, Structural, Clone, Copy)]
pub enum CheckTarget {
    /// The receiver's own type.
    Receiver,
    /// The receiver's second generic argument (the `E` of `Result<T, E>`).
    SecondArgument,
}

/// The method watched under this name.
pub open spec fn slug_method_spec(name: Seq<char>) -> Option<SlugMethod> {
    if name == "with_slug"@ {
        Some(SlugMethod::WithSlug)
    } else if name == "error_with_slug"@ {
        Some(SlugMethod::ErrorWithSlug)
    } else {
        None
    }
}

/// Whether the type is an ADT with exactly two generic arguments, the
/// second a type: then that second argument is the error type.
pub open spec fn has_error_argument(t: ReceiverType) -> bool {
    match t {
        ReceiverType::Adt(args) => args.len() == 2 && args@[1] == GenericArgKind::Type,
        ReceiverType::Other => false,
    }
}

/// The type the lint checks for a call of `method` on `receiver`.
pub open spec fn check_target_spec(method: Seq<char>, receiver: ReceiverType) -> Option<CheckTarget> {
    match slug_method_spec(method) {
        Some(SlugMethod::WithSlug) => Some(CheckTarget::Receiver),
        Some(SlugMethod::ErrorWithSlug) => if has_error_argument(receiver) {
            Some(CheckTarget::SecondArgument)
        } else {
            None
        },
        None => None,
    }
}

/// `with_slug` is always checked on the receiver's own type, whatever that
/// type is, so a call on any type that implements `WasiError` is reported
/// once the trait is found; `error_with_slug` is checked on the second
/// generic argument exactly when the receiver is an ADT with two generic
/// arguments, the second a type; every other method is never checked.
pub proof fn lemma_check_targets(receiver: ReceiverType, other: Seq<char>, wasi_error_trait: u64)
    ensures
        check_target_spec("with_slug"@, receiver) == Some(CheckTarget::Receiver),
        reported(check_target_spec("with_slug"@, receiver), Some(wasi_error_trait), true),
        check_target_spec("error_with_slug"@, receiver) == if receiver matches ReceiverType::Adt(args)
            && args@.len() == 2 && args@[1] == GenericArgKind::Type {
            Some(CheckTarget::SecondArgument)
        } else {
            None::<CheckTarget>
        },
        other != "with_slug"@ && other != "error_with_slug"@ ==> check_target_spec(other, receiver)
            is None,
{
    reveal_strlit("with_slug");
    reveal_strlit("error_with_slug");
    assert("with_slug"@ != "error_with_slug"@) by {
        assert("with_slug"@.len() != "error_with_slug"@.len());
    }
}

pub fn slug_method(name: &str) -> (r: Option<SlugMethod>)
    ensures
        r == slug_method_spec(name@),
{
    if str_eq(name, "with_slug") {
        Some(SlugMethod::WithSlug)
    } else if str_eq(name, "error_with_slug") {
        Some(SlugMethod::ErrorWithSlug)
    } else {
        None
    }
}

/// Which type to check for a call of `method` on a value of type `receiver`;
/// `None` when the call is not one the lint watches.
pub fn check_target(method: &str, receiver: &ReceiverType) -> (r: Option<CheckTarget>)
    ensures
        r == check_target_spec(method@, *receiver),
{
    match slug_method(method) {
        Some(SlugMethod::WithSlug) => Some(CheckTarget::Receiver),
        Some(SlugMethod::ErrorWithSlug) => match receiver {
            ReceiverType::Adt(args) => if args.len() == 2 && args[1] == GenericArgKind::Type {
                Some(CheckTarget::SecondArgument)
            } else {
                None
            },
            ReceiverType::Other => None,
        },
        None => None,
    }
}

/// Whether a call is reported: it is watched, the `WasiError` trait was found,
/// and the checked type implements it.
pub open spec fn reported(target: Option<CheckTarget>, wasi_error_trait: Option<u64>, implements: bool) -> bool {
    target is Some && wasi_error_trait is Some && implements
}

pub fn should_report(target: Option<CheckTarget>, wasi_error_trait: Option<u64>, implements: bool) -> (r: bool)
    ensures
        r == reported(target, wasi_error_trait, implements),
{
    target.is_some() && wasi_error_trait.is_some() && implements
}

/// What the lint says about itself.
pub const SLUG_ON_WASI_ERROR_DESCRIPTION: &'static str =
    "calling with_slug or error_with_slug on a type that already implements WasiError";

/// The help attached to each report of the lint.
pub const SLUG_ON_WASI_ERROR_HELP: &'static str =
    "this discards the original slug; use the error directly or remove this call";

/// The lint's message for a call of `method`.
pub open spec fn lint_message_spec(method: Seq<char>) -> Seq<char> {
    "calling `"@ + method + "` on a type that already implements `WasiError`"@
}

pub fn lint_message(method: &str) -> (r: String)
    ensures
        r@ == lint_message_spec(method@),
{
    let mut m = str_to_string("calling `");
    m.append(method);
    m.append("` on a type that already implements `WasiError`");
    m
}

// ---------------------------------------------------------------------------
// Finding the `WasiError` trait among the crates of a compilation
// ---------------------------------------------------------------------------

/// An item exported by a module: its name and the item's id, when it has one.
pub struct ModuleChild {
    pub name: String,
    pub def_id: Option<u64>,
}

/// An item exported by a crate's root module, with the items of the module
/// that defines it (its parent).
pub struct RootChild {
    pub name: String,
    pub def_id: Option<u64>,
    pub parent_children: Vec<ModuleChild>,
}

/// A crate of the compilation: its name and its root module's children.
pub struct CrateItems {
    pub name: String,
    pub root_children: Vec<RootChild>,
}

/// The first child named `name`, as an index.
pub open spec fn first_named(children: Seq<ModuleChild>, name: Seq<char>) -> Option<int>
    decreases children.len(),
{
    if children.len() == 0 {
        None
    } else {
        match first_named(children.drop_last(), name) {
            Some(i) => Some(i),
            None => if children.last().name@ == name {
                Some(children.len() - 1)
            } else {
                None
            },
        }
    }
}

/// Strategy of the marker: the first root child named `__WasiErrorMarker`
/// whose defining module holds an item named `WasiError` gives that item;
/// a marker without an id ends the search with nothing.
pub enum MarkerSearch {
    Found(Option<u64>),
    Abort,
    Continue,
}

/// Outcome of the marker strategy over root children `0..k` of crates `0..c`
/// (the children of crate `c` scanned up to `k`).
pub open spec fn marker_in_children(children: Seq<RootChild>) -> MarkerSearch
    decreases children.len(),
{
    if children.len() == 0 {
        MarkerSearch::Continue
    } else {
        match marker_in_children(children.drop_last()) {
            MarkerSearch::Continue => {
                let child = children.last();
                if child.name@ == "__WasiErrorMarker"@ {
                    match child.def_id {
                        None => MarkerSearch::Abort,
                        Some(_) => match first_named(child.parent_children@, "WasiError"@) {
                            Some(i) => MarkerSearch::Found(child.parent_children@[i].def_id),
                            None => MarkerSearch::Continue,
                        },
                    }
                } else {
                    MarkerSearch::Continue
                }
            },
            other => other,
        }
    }
}

pub open spec fn marker_in_crates(crates: Seq<CrateItems>) -> MarkerSearch
    decreases crates.len(),
{
    if crates.len() == 0 {
        MarkerSearch::Continue
    } else {
        match marker_in_crates(crates.drop_last()) {
            MarkerSearch::Continue => marker_in_children(crates.last().root_children@),
            other => other,
        }
    }
}

/// The id found by the marker strategy.
pub open spec fn via_marker(crates: Seq<CrateItems>) -> Option<u64> {
    match marker_in_crates(crates) {
        MarkerSearch::Found(id) => id,
        _ => None,
    }
}

/// Strategy of the crate name: in the first crate named `otel_wasi` that has
/// a root child named `WasiError`, that child's id.
pub open spec fn via_crate_name(crates: Seq<CrateItems>) -> Option<Option<u64>>
    decreases crates.len(),
{
    if crates.len() == 0 {
        None
    } else {
        match via_crate_name(crates.drop_last()) {
            Some(found) => Some(found),
            None => {
                let c = crates.last();
                if c.name@ == "otel_wasi"@ {
                    match first_named_root(c.root_children@, "WasiError"@) {
                        Some(i) => Some(c.root_children@[i].def_id),
                        None => None,
                    }
                } else {
                    None
                }
            },
        }
    }
}

pub open spec fn first_named_root(children: Seq<RootChild>, name: Seq<char>) -> Option<int>
    decreases children.len(),
{
    if children.len() == 0 {
        None
    } else {
        match first_named_root(children.drop_last(), name) {
            Some(i) => Some(i),
            None => if children.last().name@ == name {
                Some(children.len() - 1)
            } else {
                None
            },
        }
    }
}

/// The `WasiError` trait: by the marker if that finds it, else by the crate name.
pub open spec fn wasi_error_trait_spec(crates: Seq<CrateItems>) -> Option<u64> {
    match via_marker(crates) {
        Some(id) => Some(id),
        None => match via_crate_name(crates) {
            Some(found) => found,
            None => None,
        },
    }
}


proof fn lemma_first_named_prefix(children: Seq<ModuleChild>, name: Seq<char>, k: int)
    requires
        0 <= k <= children.len(),
        first_named(children.take(k), name) is Some,
    ensures
        first_named(children, name) == first_named(children.take(k), name),
    decreases children.len() - k,
{
    if k == children.len() {
        assert(children.take(k) =~= children);
    } else {
        assert(children.take(k + 1).drop_last() =~= children.take(k));
        lemma_first_named_prefix(children, name, k + 1);
    }
}

proof fn lemma_first_named_root_prefix(children: Seq<RootChild>, name: Seq<char>, k: int)
    requires
        0 <= k <= children.len(),
        first_named_root(children.take(k), name) is Some,
    ensures
        first_named_root(children, name) == first_named_root(children.take(k), name),
    decreases children.len() - k,
{
    if k == children.len() {
        assert(children.take(k) =~= children);
    } else {
        assert(children.take(k + 1).drop_last() =~= children.take(k));
        lemma_first_named_root_prefix(children, name, k + 1);
    }
}

proof fn lemma_marker_children_prefix(children: Seq<RootChild>, k: int)
    requires
        0 <= k <= children.len(),
        !(marker_in_children(children.take(k)) is Continue),
    ensures
        marker_in_children(children) == marker_in_children(children.take(k)),
    decreases children.len() - k,
{
    if k == children.len() {
        assert(children.take(k) =~= children);
    } else {
        assert(children.take(k + 1).drop_last() =~= children.take(k));
        lemma_marker_children_prefix(children, k + 1);
    }
}

proof fn lemma_marker_crates_prefix(crates: Seq<CrateItems>, k: int)
    requires
        0 <= k <= crates.len(),
        !(marker_in_crates(crates.take(k)) is Continue),
    ensures
        marker_in_crates(crates) == marker_in_crates(crates.take(k)),
    decreases crates.len() - k,
{
    if k == crates.len() {
        assert(crates.take(k) =~= crates);
    } else {
        assert(crates.take(k + 1).drop_last() =~= crates.take(k));
        lemma_marker_crates_prefix(crates, k + 1);
    }
}

proof fn lemma_crate_name_prefix(crates: Seq<CrateItems>, k: int)
    requires
        0 <= k <= crates.len(),
        via_crate_name(crates.take(k)) is Some,
    ensures
        via_crate_name(crates) == via_crate_name(crates.take(k)),
    decreases crates.len() - k,
{
    if k == crates.len() {
        assert(crates.take(k) =~= crates);
    } else {
        assert(crates.take(k + 1).drop_last() =~= crates.take(k));
        lemma_crate_name_prefix(crates, k + 1);
    }
}

fn first_named_index(children: &Vec<ModuleChild>, name: &str) -> (r: Option<usize>)
    ensures
        r matches Some(x) ==> first_named(children@, name@) == Some(x as int) && x < children@.len(),
        r is None ==> first_named(children@, name@) is None,
{
    let n = children.len();
    let mut i: usize = 0;
    while i < n
        invariant
            n == children@.len(),
            i <= n,
            first_named(children@.take(i as int), name@) is None,
        decreases n - i,
    {
        assert(children@.take(i + 1).drop_last() =~= children@.take(i as int));
        if str_eq(children[i].name.as_str(), name) {
            proof {
                lemma_first_named_prefix(children@, name@, i + 1);
            }
            return Some(i);
        }
        i = i + 1;
    }
    assert(children@.take(n as int) =~= children@);
    None
}

fn first_named_root_index(children: &Vec<RootChild>, name: &str) -> (r: Option<usize>)
    ensures
        r matches Some(x) ==> first_named_root(children@, name@) == Some(x as int) && x < children@.len(),
        r is None ==> first_named_root(children@, name@) is None,
{
    let n = children.len();
    let mut i: usize = 0;
    while i < n
        invariant
            n == children@.len(),
            i <= n,
            first_named_root(children@.take(i as int), name@) is None,
        decreases n - i,
    {
        assert(children@.take(i + 1).drop_last() =~= children@.take(i as int));
        if str_eq(children[i].name.as_str(), name) {
            proof {
                lemma_first_named_root_prefix(children@, name@, i + 1);
            }
            return Some(i);
        }
        i = i + 1;
    }
    assert(children@.take(n as int) =~= children@);
    None
}

/// `first_named` finds the first child with the name, and nothing when no
/// child has it.
pub proof fn lemma_first_named(children: Seq<ModuleChild>, name: Seq<char>)
    ensures
        first_named(children, name) matches Some(i) ==> (0 <= i < children.len() && children[i].name@ == name
            && forall|j: int| 0 <= j < i ==> (#[trigger] children[j]).name@ != name),
        first_named(children, name) is None ==> forall|j: int|
            0 <= j < children.len() ==> (#[trigger] children[j]).name@ != name,
    decreases children.len(),
{
    if children.len() > 0 {
        let p = children.drop_last();
        lemma_first_named(p, name);
        assert forall|j: int| 0 <= j < p.len() implies p[j] == #[trigger] children[j] by {}
    }
}

/// `first_named_root` finds the first root child with the name, and nothing
/// when no root child has it.
pub proof fn lemma_first_named_root(children: Seq<RootChild>, name: Seq<char>)
    ensures
        first_named_root(children, name) matches Some(i) ==> (0 <= i < children.len() && children[i].name@
            == name && forall|j: int| 0 <= j < i ==> (#[trigger] children[j]).name@ != name),
        first_named_root(children, name) is None ==> forall|j: int|
            0 <= j < children.len() ==> (#[trigger] children[j]).name@ != name,
    decreases children.len(),
{
    if children.len() > 0 {
        let p = children.drop_last();
        lemma_first_named_root(p, name);
        assert forall|j: int| 0 <= j < p.len() implies p[j] == #[trigger] children[j] by {}
    }
}

/// A root child that is the marker, has an id, and whose defining module
/// holds a `WasiError` item with id `id`.
pub open spec fn marks(child: RootChild, id: Option<u64>) -> bool {
    &&& child.name@ == "__WasiErrorMarker"@
    &&& child.def_id is Some
    &&& exists|m: int|
        0 <= m < child.parent_children@.len() && (#[trigger] child.parent_children@[m]).name@ == "WasiError"@
            && child.parent_children@[m].def_id == id
}

proof fn lemma_marker_in_children(children: Seq<RootChild>)
    ensures
        marker_in_children(children) matches MarkerSearch::Found(id) ==> exists|k: int|
            0 <= k < children.len() && marks(#[trigger] children[k], id),
        (forall|k: int| 0 <= k < children.len() ==> (#[trigger] children[k]).name@ != "__WasiErrorMarker"@)
            ==> marker_in_children(children) is Continue,
    decreases children.len(),
{
    if children.len() > 0 {
        let p = children.drop_last();
        lemma_marker_in_children(p);
        assert forall|j: int| 0 <= j < p.len() implies p[j] == #[trigger] children[j] by {}
        let child = children.last();
        if marker_in_children(p) is Continue && child.name@ == "__WasiErrorMarker"@ && child.def_id is Some {
            lemma_first_named(child.parent_children@, "WasiError"@);
            assert(children[children.len() - 1] == child);
        }
    }
}

/// The marker strategy finds only the `WasiError` item that sits beside a
/// `__WasiErrorMarker` re-export with an id, in the module that defines the
/// marker; where no crate exports a marker it finds nothing.
pub proof fn lemma_marker_finds_sibling(crates: Seq<CrateItems>)
    ensures
        via_marker(crates) matches Some(id) ==> exists|c: int, k: int|
            0 <= c < crates.len() && 0 <= k < crates[c].root_children@.len() && marks(
                #[trigger] crates[c].root_children@[k],
                Some(id),
            ),
        (forall|c: int, k: int|
            0 <= c < crates.len() && 0 <= k < crates[c].root_children@.len() ==> (
            #[trigger] crates[c].root_children@[k]).name@ != "__WasiErrorMarker"@) ==> via_marker(crates)
            is None,
    decreases crates.len(),
{
    if crates.len() > 0 {
        let p = crates.drop_last();
        lemma_marker_finds_sibling(p);
        let last = crates.last();
        lemma_marker_in_children(last.root_children@);
        assert forall|c: int| 0 <= c < p.len() implies p[c] == #[trigger] crates[c] by {}
        assert(crates[crates.len() - 1] == last);
        if marker_in_crates(p) is Continue {
            if (forall|c: int, k: int|
                0 <= c < crates.len() && 0 <= k < crates[c].root_children@.len() ==> (
                #[trigger] crates[c].root_children@[k]).name@ != "__WasiErrorMarker"@) {
                assert forall|k: int| 0 <= k < last.root_children@.len() implies (
                #[trigger] last.root_children@[k]).name@ != "__WasiErrorMarker"@ by {
                    assert(crates[crates.len() - 1].root_children@[k] == last.root_children@[k]);
                }
            }
        } else {
            if (forall|c: int, k: int|
                0 <= c < crates.len() && 0 <= k < crates[c].root_children@.len() ==> (
                #[trigger] crates[c].root_children@[k]).name@ != "__WasiErrorMarker"@) {
                assert forall|c: int, k: int|
                    0 <= c < p.len() && 0 <= k < p[c].root_children@.len() implies (
                    #[trigger] p[c].root_children@[k]).name@ != "__WasiErrorMarker"@ by {
                    assert(p[c] == crates[c]);
                }
            }
        }
    }
}

/// The crate-name strategy finds only a root child named `WasiError` of a
/// crate named `otel_wasi`, and it finds one whenever such a child exists;
/// where no crate is named `otel_wasi` it finds nothing.
pub proof fn lemma_crate_name_finds_root_trait(crates: Seq<CrateItems>)
    ensures
        via_crate_name(crates) matches Some(found) ==> exists|c: int, i: int|
            0 <= c < crates.len() && 0 <= i < crates[c].root_children@.len() && crates[c].name@ == "otel_wasi"@
                && (#[trigger] crates[c].root_children@[i]).name@ == "WasiError"@
                && crates[c].root_children@[i].def_id == found,
        (exists|c: int, i: int|
            0 <= c < crates.len() && 0 <= i < crates[c].root_children@.len() && crates[c].name@ == "otel_wasi"@
                && (#[trigger] crates[c].root_children@[i]).name@ == "WasiError"@) ==> via_crate_name(crates) is Some,
        (forall|c: int| 0 <= c < crates.len() ==> (#[trigger] crates[c]).name@ != "otel_wasi"@) ==> via_crate_name(
            crates,
        ) is None,
    decreases crates.len(),
{
    if crates.len() > 0 {
        let p = crates.drop_last();
        lemma_crate_name_finds_root_trait(p);
        let last = crates.last();
        lemma_first_named_root(last.root_children@, "WasiError"@);
        assert forall|c: int| 0 <= c < p.len() implies p[c] == #[trigger] crates[c] by {}
        assert(crates[crates.len() - 1] == last);
        if exists|c: int, i: int|
            0 <= c < crates.len() && 0 <= i < crates[c].root_children@.len() && crates[c].name@ == "otel_wasi"@
                && (#[trigger] crates[c].root_children@[i]).name@ == "WasiError"@ {
            let (c, i) = choose|c: int, i: int|
                0 <= c < crates.len() && 0 <= i < crates[c].root_children@.len() && crates[c].name@ == "otel_wasi"@
                    && (#[trigger] crates[c].root_children@[i]).name@ == "WasiError"@;
            if c < p.len() {
                assert(p[c].root_children@[i] == crates[c].root_children@[i]);
            }
        }
    }
}

/// The trait found through the `__WasiErrorMarker` re-export.
pub fn find_trait_via_marker(crates: &Vec<CrateItems>) -> (r: Option<u64>)
    ensures
        r == via_marker(crates@),
{
    let nc = crates.len();
    let mut c: usize = 0;
    while c < nc
        invariant
            nc == crates@.len(),
            c <= nc,
            marker_in_crates(crates@.take(c as int)) is Continue,
        decreases nc - c,
    {
        let children = &crates[c].root_children;
        let ghost before = crates@.take(c as int);
        assert(crates@.take(c + 1).drop_last() =~= before);
        let n = children.len();
        let mut k: usize = 0;
        while k < n
            invariant
                nc == crates@.len(),
                c < nc,
                children == &crates@[c as int].root_children,
                n == children@.len(),
                k <= n,
                marker_in_crates(before) is Continue,
                crates@.take(c + 1).drop_last() == before,
                marker_in_children(children@.take(k as int)) is Continue,
            decreases n - k,
        {
            let child = &children[k];
            assert(children@.take(k + 1).drop_last() =~= children@.take(k as int));
            if str_eq(child.name.as_str(), "__WasiErrorMarker") {
                match child.def_id {
                    None => {
                        proof {
                            assert(children@.take(k + 1).last() == children@[k as int]);
                            assert(crates@.take(c + 1).last() == crates@[c as int]);
                            lemma_marker_children_prefix(children@, k + 1);
                            assert(marker_in_crates(crates@.take(c + 1)) == marker_in_children(children@));
                            lemma_marker_crates_prefix(crates@, c + 1);
                        }
                        return None;
                    },
                    Some(_) => {
                        match first_named_index(&child.parent_children, "WasiError") {
                            Some(i) => {
                                proof {
                                    assert(children@.take(k + 1).last() == children@[k as int]);
                                    assert(crates@.take(c + 1).last() == crates@[c as int]);
                                    lemma_marker_children_prefix(children@, k + 1);
                                    assert(marker_in_crates(crates@.take(c + 1)) == marker_in_children(children@));
                                    lemma_marker_crates_prefix(crates@, c + 1);
                                }
                                return child.parent_children[i].def_id;
                            },
                            None => {},
                        }
                    },
                }
            }
            k = k + 1;
        }
        assert(children@.take(n as int) =~= children@);
        c = c + 1;
    }
    assert(crates@.take(nc as int) =~= crates@);
    None
}

/// The trait found in the root of a crate named `otel_wasi`.
pub fn find_trait_via_crate_name(crates: &Vec<CrateItems>) -> (r: Option<u64>)
    ensures
        r == match via_crate_name(crates@) {
            Some(found) => found,
            None => None,
        },
{
    let nc = crates.len();
    let mut c: usize = 0;
    while c < nc
        invariant
            nc == crates@.len(),
            c <= nc,
            via_crate_name(crates@.take(c as int)) is None,
        decreases nc - c,
    {
        assert(crates@.take(c + 1).drop_last() =~= crates@.take(c as int));
        if str_eq(crates[c].name.as_str(), "otel_wasi") {
            match first_named_root_index(&crates[c].root_children, "WasiError") {
                Some(i) => {
                    proof {
                        assert(crates@.take(c + 1).last() == crates@[c as int]);
                        lemma_crate_name_prefix(crates@, c + 1);
                    }
                    return crates[c].root_children[i].def_id;
                },
                None => {},
            }
        }
        c = c + 1;
    }
    assert(crates@.take(nc as int) =~= crates@);
    None
}

/// The `WasiError` trait of the compilation, if any crate provides it.
pub fn find_wasi_error_trait(crates: &Vec<CrateItems>) -> (r: Option<u64>)
    ensures
        r == wasi_error_trait_spec(crates@),
{
    match find_trait_via_marker(crates) {
        Some(id) => Some(id),
        None => find_trait_via_crate_name(crates),
    }
}

} // verus!
