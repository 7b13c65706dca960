use otel_wasi::args::{parse_instrument_args, ArgToken, ArgsError, Delimiter, InstrumentArgs};
use otel_wasi::instrument::{
    default_span_name, extract_otel_error_inner, extract_result_types, is_result_type,
    plan_instrument, ErrorInner, FinishPlan, GenericArgument, PlanError, ReturnShape, Segment,
    SegmentArguments, TypeShape,
};

fn ident(s: &str) -> ArgToken {
    ArgToken::Ident(s.to_string())
}
fn punct(c: char) -> ArgToken {
    ArgToken::Punct(c, false)
}
fn joint(c: char) -> ArgToken {
    ArgToken::Punct(c, true)
}
fn lit(s: &str) -> ArgToken {
    ArgToken::Str(s.to_string(), format!("{:?}", s))
}
fn group(delimiter: Delimiter, content: Vec<ArgToken>, text: &str) -> ArgToken {
    ArgToken::Group(delimiter, content, text.to_string())
}
fn parens(content: Vec<ArgToken>) -> ArgToken {
    group(Delimiter::Parenthesis, content, "(..)")
}
fn path(name: &str, arguments: SegmentArguments) -> TypeShape {
    TypeShape::Path(Some(Segment { ident: name.to_string(), arguments }))
}
fn bare(name: &str) -> TypeShape {
    path(name, SegmentArguments::NoArguments)
}
fn angle(args: Vec<TypeShape>) -> SegmentArguments {
    SegmentArguments::AngleBracketed(args.into_iter().map(GenericArgument::Type).collect())
}
fn args_of(tokens: Vec<ArgToken>) -> InstrumentArgs {
    parse_instrument_args(&tokens).unwrap()
}

#[test]
fn parses_service_name_export_and_attributes() {
    // service = "nats-echo", name = "handle-message", export,
    // attributes("messaging.system" = "nats", "component.kind" = kind())
    let tokens = vec![
        ident("service"), punct('='), lit("nats-echo"), punct(','),
        ident("name"), punct('='), lit("handle-message"), punct(','),
        ident("export"), punct(','),
        ident("attributes"),
        parens(vec![
            lit("messaging.system"), punct('='), lit("nats"), punct(','),
            lit("component.kind"), punct('='), ident("kind"),
            group(Delimiter::Parenthesis, vec![], "()"),
        ]),
    ];
    let args = args_of(tokens);
    assert_eq!(args.service, Some("nats-echo".to_string()));
    assert_eq!(args.name, Some("handle-message".to_string()));
    assert!(args.export);
    assert_eq!(args.attributes.len(), 2);
    assert_eq!(args.attributes[0].key, "messaging.system");
    assert_eq!((args.attributes[0].group, args.attributes[0].start, args.attributes[0].end), (11, 2, 3));
    assert_eq!(args.attributes[1].key, "component.kind");
    assert_eq!((args.attributes[1].start, args.attributes[1].end), (6, 8));
}

#[test]
fn empty_list_and_trailing_commas() {
    let args = args_of(vec![]);
    assert_eq!(args.service, None);
    assert_eq!(args.name, None);
    assert!(!args.export);
    assert!(args.attributes.is_empty());

    let args = args_of(vec![
        ident("service"), punct('='), lit("svc"), punct(','),
        ident("attributes"),
        parens(vec![lit("k"), punct('='), lit("v"), punct(',')]),
        punct(','),
    ]);
    assert_eq!(args.service, Some("svc".to_string()));
    assert_eq!(args.attributes.len(), 1);
}

#[test]
fn unsupported_option_is_refused() {
    // service = "test-service", nope = "nope"
    let tokens = vec![
        ident("service"), punct('='), lit("test-service"), punct(','),
        ident("nope"), punct('='), lit("nope"),
    ];
    assert_eq!(
        parse_instrument_args(&tokens).err(),
        Some(ArgsError::Unsupported("nope".to_string(), 4))
    );
    assert_eq!(
        parse_instrument_args(&tokens).err().unwrap().message(),
        "unsupported wasi_instrument option `nope`"
    );
}

#[test]
fn malformed_lists_are_refused() {
    let err = |tokens: Vec<ArgToken>| parse_instrument_args(&tokens).err();
    assert_eq!(err(vec![lit("svc")]), Some(ArgsError::ExpectedIdent));
    assert_eq!(err(vec![ident("service"), lit("svc")]), Some(ArgsError::ExpectedEq));
    assert_eq!(err(vec![ident("service"), punct('=')]), Some(ArgsError::ExpectedStr));
    assert_eq!(err(vec![ident("name"), punct('='), ident("x")]), Some(ArgsError::ExpectedStr));
    assert_eq!(err(vec![ident("export"), ident("export")]), Some(ArgsError::ExpectedComma));
    assert_eq!(err(vec![ident("attributes")]), Some(ArgsError::ExpectedParens));
    assert_eq!(
        err(vec![ident("attributes"), group(Delimiter::Bracket, vec![], "[]")]),
        Some(ArgsError::ExpectedParens)
    );
    let attrs = |content: Vec<ArgToken>| vec![ident("attributes"), parens(content)];
    assert_eq!(err(attrs(vec![ident("k")])), Some(ArgsError::ExpectedStr));
    assert_eq!(err(attrs(vec![lit("k"), lit("v")])), Some(ArgsError::ExpectedEq));
    assert_eq!(err(attrs(vec![lit("k"), punct('='), punct(',')])), Some(ArgsError::ExpectedExpr));
    assert_eq!(err(attrs(vec![lit("k"), punct('=')])), Some(ArgsError::ExpectedExpr));
    // `a` is an expression, but it is followed by `b`, not a comma.
    assert_eq!(err(attrs(vec![lit("k"), punct('='), ident("a"), ident("b")])), Some(ArgsError::ExpectedComma));
    assert_eq!(err(vec![ident("parent"), punct('='), ident("p"), ident("q")]), Some(ArgsError::ExpectedComma));
    // A keyword is no option name.
    assert_eq!(
        err(vec![ident("service"), punct('='), lit("s"), punct(','), ident("type"), punct('='), lit("t")]),
        Some(ArgsError::Keyword("type".to_string(), 4))
    );
    assert_eq!(
        ArgsError::Keyword("type".to_string(), 4).message(),
        "expected identifier, found keyword `type`"
    );
    // A raw identifier is no keyword, but no known option either.
    assert_eq!(
        err(vec![ident("r#type")]),
        Some(ArgsError::Unsupported("r#type".to_string(), 0))
    );
    assert_eq!(err(vec![ident("parent"), ident("p")]), Some(ArgsError::ExpectedEq));
    assert_eq!(err(vec![ident("parent"), punct('=')]), Some(ArgsError::ExpectedExpr));
}

#[test]
fn later_option_overrides_earlier() {
    let args = args_of(vec![
        ident("name"), punct('='), lit("a"), punct(','),
        ident("name"), punct('='), lit("b"),
    ]);
    assert_eq!(args.name, Some("b".to_string()));
}

#[test]
fn default_span_name_replaces_underscores() {
    assert_eq!(default_span_name("handle_message"), "handle-message");
    assert_eq!(default_span_name("plain"), "plain");
    assert_eq!(default_span_name("__a_b__"), "--a-b--");
    assert_eq!(default_span_name(""), "");
}

#[test]
fn result_type_shapes() {
    let result = path("Result", angle(vec![bare("Response"), path("Error", angle(vec![bare("ErrorCode")]))]));
    assert!(is_result_type(&result));
    assert_eq!(extract_result_types(&result), Some((0, 1)));

    // A lifetime before the types does not count as a type argument.
    let with_lifetime = path(
        "Result",
        SegmentArguments::AngleBracketed(vec![
            GenericArgument::Other,
            GenericArgument::Type(bare("T")),
            GenericArgument::Type(bare("E")),
        ]),
    );
    assert_eq!(extract_result_types(&with_lifetime), Some((1, 2)));

    assert_eq!(extract_result_types(&path("Result", angle(vec![bare("T")]))), None);
    assert_eq!(extract_result_types(&bare("Result")), None);
    assert_eq!(extract_result_types(&bare("Option")), None);
    assert_eq!(extract_result_types(&TypeShape::Other), None);
    assert!(!is_result_type(&bare("u64")));
    assert!(!is_result_type(&TypeShape::Path(None)));
    assert!(is_result_type(&bare("Result")));
}

#[test]
fn otel_error_shapes() {
    assert_eq!(extract_otel_error_inner(&bare("Error")), Some(ErrorInner::DefaultString));
    assert_eq!(
        extract_otel_error_inner(&path("Error", angle(vec![bare("ErrorCode")]))),
        Some(ErrorInner::FirstArgument)
    );
    assert_eq!(
        extract_otel_error_inner(&path("Error", SegmentArguments::AngleBracketed(vec![GenericArgument::Other]))),
        None
    );
    assert_eq!(extract_otel_error_inner(&path("Error", SegmentArguments::Parenthesized)), None);
    assert_eq!(extract_otel_error_inner(&bare("String")), None);
    assert_eq!(extract_otel_error_inner(&TypeShape::Other), None);
}

fn service_args(export: bool, name: Option<&str>) -> InstrumentArgs {
    InstrumentArgs {
        service: Some("test-service".to_string()),
        name: name.map(|n| n.to_string()),
        export,
        attributes: vec![],
        parent: None,
    }
}

#[test]
fn plan_requires_service() {
    // #[wasi_instrument(name = "missing-service")]
    let args = args_of(vec![ident("name"), punct('='), lit("missing-service")]);
    let plan = plan_instrument(&args, "missing_service", &ReturnShape::Default, false);
    assert_eq!(plan.err(), Some(PlanError::MissingService));
    assert_eq!(
        PlanError::MissingService.message(),
        "#[wasi_instrument] requires `service = \"...\"`"
    );
}

#[test]
fn refusal_texts() {
    assert_eq!(
        PlanError::ExportNeedsResult.message(),
        "#[wasi_instrument(export)] requires a `Result<T, E>` return type"
    );
    assert!(PlanError::ExportErrorType
        .message()
        .starts_with("#[wasi_instrument(export)] error type must be `otel_wasi::Error<E>`"));
    assert_eq!(ArgsError::ExpectedEq.message(), "expected `=`");
    assert_eq!(ArgsError::ExpectedComma.message(), "expected `,`");
    assert_eq!(ArgsError::ExpectedExpr.message(), "expected an expression");
}

#[test]
fn plan_local_functions() {
    let args = service_args(false, None);
    let unit = plan_instrument(&args, "unit_async", &ReturnShape::Default, true).unwrap();
    assert_eq!(unit.service, "test-service");
    assert_eq!(unit.span_name, "unit-async");
    assert!(unit.is_async);
    assert!(!unit.record_attributes);
    assert_eq!(unit.finish, FinishPlan::Unit);

    let plain = plan_instrument(&args, "plain", &ReturnShape::Type(bare("u64")), false).unwrap();
    assert_eq!(plain.finish, FinishPlan::Plain);

    let result = ReturnShape::Type(path("Result", angle(vec![bare("()"), bare("String")])));
    let fallible = plan_instrument(&service_args(false, Some("fallible")), "fallible", &result, false).unwrap();
    assert_eq!(fallible.span_name, "fallible");
    assert_eq!(fallible.finish, FinishPlan::Outcome);
}

#[test]
fn plan_export_functions() {
    let args = service_args(true, None);
    let default_error = ReturnShape::Type(path("Result", angle(vec![bare("()"), bare("Error")])));
    let plan = plan_instrument(&args, "fallible_export", &default_error, false).unwrap();
    assert_eq!(plan.finish, FinishPlan::Export { ok: 0, err: 1, inner: ErrorInner::DefaultString });

    let typed = ReturnShape::Type(path(
        "Result",
        angle(vec![bare("Response"), path("Error", angle(vec![bare("ErrorCode")]))]),
    ));
    let plan = plan_instrument(&args, "handle", &typed, true).unwrap();
    assert_eq!(plan.finish, FinishPlan::Export { ok: 0, err: 1, inner: ErrorInner::FirstArgument });

    assert_eq!(
        plan_instrument(&args, "f", &ReturnShape::Default, false).err(),
        Some(PlanError::ExportNeedsResult)
    );
    assert_eq!(
        plan_instrument(&args, "f", &ReturnShape::Type(bare("u64")), false).err(),
        Some(PlanError::ExportNeedsResult)
    );
    let string_error = ReturnShape::Type(path("Result", angle(vec![bare("()"), bare("String")])));
    assert_eq!(
        plan_instrument(&args, "f", &string_error, false).err(),
        Some(PlanError::ExportErrorType)
    );
}

#[test]
fn plan_records_static_attributes() {
    let args = args_of(vec![
        ident("service"), punct('='), lit("s"), punct(','),
        ident("attributes"),
        parens(vec![lit("component.kind"), punct('='), lit("test")]),
    ]);
    let plan = plan_instrument(&args, "f", &ReturnShape::Default, false).unwrap();
    assert!(plan.record_attributes);
    assert!(!plan.explicit_parent);
}

#[test]
fn attribute_values_with_inner_commas() {
    // attributes("k" = f::<A, B>(), "c" = |a, b| a)
    let content = vec![
        lit("k"), punct('='),
        ident("f"), joint(':'), punct(':'), punct('<'), ident("A"), punct(','), ident("B"), punct('>'),
        group(Delimiter::Parenthesis, vec![], "()"),
        punct(','),
        lit("c"), punct('='),
        punct('|'), ident("a"), punct(','), ident("b"), punct('|'), ident("a"),
    ];
    let args = args_of(vec![
        ident("service"), punct('='), lit("s"), punct(','),
        ident("attributes"), parens(content),
    ]);
    assert_eq!(args.attributes.len(), 2);
    assert_eq!((args.attributes[0].start, args.attributes[0].end), (2, 11));
    assert_eq!(args.attributes[1].key, "c");
    assert_eq!((args.attributes[1].start, args.attributes[1].end), (14, 20));
}

#[test]
fn explicit_parent_option() {
    // service = "test-service", parent = parent
    let args = args_of(vec![
        ident("service"), punct('='), lit("test-service"), punct(','),
        ident("parent"), punct('='), ident("parent"),
    ]);
    assert_eq!(args.service, Some("test-service".to_string()));
    let parent = args.parent.as_ref().unwrap();
    assert_eq!((parent.start, parent.end), (6, 7));
    let plan = plan_instrument(&args, "linked_entrypoint", &ReturnShape::Default, false).unwrap();
    assert!(plan.explicit_parent);
    assert_eq!(plan.span_name, "linked-entrypoint");

    // parent = ctx.clone(), export
    let args = args_of(vec![
        ident("parent"), punct('='), ident("ctx"), punct('.'), ident("clone"),
        group(Delimiter::Parenthesis, vec![], "()"),
        punct(','), ident("export"),
    ]);
    let parent = args.parent.as_ref().unwrap();
    assert_eq!((parent.start, parent.end), (2, 6));
    assert!(args.export);
}
