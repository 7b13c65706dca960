use otel_wasi::lint::{
    check_target, find_trait_via_crate_name, find_trait_via_marker, find_wasi_error_trait,
    lint_message, should_report, SLUG_ON_WASI_ERROR_HELP, slug_method, CheckTarget, CrateItems, GenericArgKind,
    ModuleChild, ReceiverType, RootChild, SlugMethod,
};

fn child(name: &str, def_id: Option<u64>) -> ModuleChild {
    ModuleChild { name: name.to_string(), def_id }
}

fn root(name: &str, def_id: Option<u64>, parent_children: Vec<ModuleChild>) -> RootChild {
    RootChild { name: name.to_string(), def_id, parent_children }
}

fn krate(name: &str, root_children: Vec<RootChild>) -> CrateItems {
    CrateItems { name: name.to_string(), root_children }
}

#[test]
fn watched_methods() {
    assert_eq!(slug_method("with_slug"), Some(SlugMethod::WithSlug));
    assert_eq!(slug_method("error_with_slug"), Some(SlugMethod::ErrorWithSlug));
    assert_eq!(slug_method("map_err"), None);
}

#[test]
fn check_targets() {
    let result = ReceiverType::Adt(vec![GenericArgKind::Type, GenericArgKind::Type]);
    assert_eq!(check_target("with_slug", &ReceiverType::Other), Some(CheckTarget::Receiver));
    assert_eq!(check_target("error_with_slug", &result), Some(CheckTarget::SecondArgument));
    assert_eq!(check_target("error_with_slug", &ReceiverType::Other), None);
    assert_eq!(
        check_target("error_with_slug", &ReceiverType::Adt(vec![GenericArgKind::Type])),
        None
    );
    assert_eq!(
        check_target("error_with_slug", &ReceiverType::Adt(vec![GenericArgKind::Type, GenericArgKind::Lifetime])),
        None
    );
    assert_eq!(check_target("to_string", &result), None);
}

#[test]
fn report_needs_target_trait_and_impl() {
    assert!(should_report(Some(CheckTarget::Receiver), Some(7), true));
    assert!(!should_report(Some(CheckTarget::Receiver), Some(7), false));
    assert!(!should_report(Some(CheckTarget::Receiver), None, true));
    assert!(!should_report(None, Some(7), true));
}

#[test]
fn message_names_the_method() {
    assert_eq!(
        lint_message("with_slug"),
        "calling `with_slug` on a type that already implements `WasiError`"
    );
    assert_eq!(
        SLUG_ON_WASI_ERROR_HELP,
        "this discards the original slug; use the error directly or remove this call"
    );
}

#[test]
fn trait_found_through_marker() {
    let crates = vec![
        krate("std", vec![root("Vec", Some(1), vec![])]),
        krate(
            "otel_wasi",
            vec![root(
                "__WasiErrorMarker",
                Some(10),
                vec![child("Error", Some(11)), child("WasiError", Some(12))],
            )],
        ),
    ];
    assert_eq!(find_trait_via_marker(&crates), Some(12));
    assert_eq!(find_wasi_error_trait(&crates), Some(12));
}

#[test]
fn marker_without_id_ends_marker_search() {
    let crates = vec![
        krate("a", vec![root("__WasiErrorMarker", None, vec![child("WasiError", Some(1))])]),
        krate("b", vec![root("__WasiErrorMarker", Some(2), vec![child("WasiError", Some(3))])]),
    ];
    assert_eq!(find_trait_via_marker(&crates), None);
}

#[test]
fn trait_found_through_crate_name() {
    let crates = vec![
        krate("other", vec![root("WasiError", Some(5), vec![])]),
        krate("otel_wasi", vec![root("Error", Some(6), vec![]), root("WasiError", Some(7), vec![])]),
    ];
    assert_eq!(find_trait_via_marker(&crates), None);
    assert_eq!(find_trait_via_crate_name(&crates), Some(7));
    assert_eq!(find_wasi_error_trait(&crates), Some(7));
    assert_eq!(find_wasi_error_trait(&vec![]), None);
}
