use monty_host::bind_args::{
    ArgRef, BindError, Binding, CallArgs, FieldWording, KeywordArg, TooManyWording, UnknownWording,
};
use monty_host::from_args::{
    kwarg_string_id, parse_field_attrs, parse_struct_attrs, snake_to_pascal, AtMostStyle, BadArgStyle, DefaultSource,
    ErrorStyle, FieldDecl, FieldKind, KeywordId, MetaEntry, Signature, StructAttrs,
};

fn attrs(name: &str) -> StructAttrs {
    StructAttrs {
        name: name.to_owned(),
        error_style: ErrorStyle::Python,
        at_most_total: false,
        expected_exact: false,
        kwarg_error_name: None,
        bad_arg: None,
        kwargs_not_supported_yet: false,
    }
}

fn decl(name: &str, kind: FieldKind, has_default: bool) -> FieldDecl {
    FieldDecl { name: name.to_owned(), kind, has_default, static_string: None, keyword: name.to_owned() }
}

fn signature(attrs: StructAttrs, fields: Vec<FieldDecl>) -> Signature {
    Signature::parse(attrs, Some(fields)).ok().expect("a sound declaration")
}

fn keyword(name: &str) -> KeywordArg {
    KeywordArg { name: Some(name.to_owned()), interned: true, converts: true }
}

fn call(positional: usize, keywords: &[&str]) -> CallArgs {
    CallArgs { positional: vec![true; positional], keywords: keywords.iter().map(|k| keyword(k)).collect() }
}

fn bound(signature: &Signature, args: &CallArgs) -> Binding {
    signature.bind(args).ok().expect("a fitting call")
}

fn refused(signature: &Signature, args: &CallArgs) -> BindError {
    signature.bind(args).err().expect("a refused call")
}

/// `def f(a, b=.., *args, c, d=.., **kwargs)`
fn everything(attrs: StructAttrs) -> Signature {
    signature(
        attrs,
        vec![
            decl("a", FieldKind::PosOrKeyword, false),
            decl("b", FieldKind::PosOrKeyword, true),
            decl("args", FieldKind::Varargs, false),
            decl("c", FieldKind::PosOrKeyword, false),
            decl("d", FieldKind::KwOnly, true),
            decl("kwargs", FieldKind::Varkwargs, false),
        ],
    )
}

#[test]
fn every_argument_finds_its_place() {
    let sig = everything(attrs("f"));
    assert_eq!(sig.fields[3].kind, FieldKind::KwOnly, "behind *args a field is keyword-only");
    assert_eq!(sig.fields[1].pos_index, Some(2));
    assert_eq!((sig.varargs_idx, sig.varkwargs_idx), (Some(2), Some(5)));
    assert_eq!((sig.named_positional_count(), sig.kw_only_count(), sig.required_positional_count()), (2, 2, 1));
    let binding = bound(&sig, &call(4, &["x", "c", "y"]));
    assert_eq!(
        binding.slots,
        vec![
            Some(ArgRef::Positional(0)),
            Some(ArgRef::Positional(1)),
            None,
            Some(ArgRef::Keyword(1)),
            None,
            None
        ]
    );
    assert_eq!(binding.varargs, vec![2, 3]);
    assert_eq!(binding.varkwargs, vec![0, 2]);
    let binding = bound(&sig, &call(0, &["c", "a"]));
    assert_eq!(binding.slots[0], Some(ArgRef::Keyword(1)));
    assert_eq!(binding.slots[1], None);
}

#[test]
fn faults_of_python_functions() {
    let sig = signature(
        StructAttrs { kwarg_error_name: Some("JSONEncoder.__init__".to_owned()), ..attrs("dumps") },
        vec![
            decl("obj", FieldKind::PosOrKeyword, false),
            decl("indent", FieldKind::KwOnly, true),
            decl("default", FieldKind::KwOnly, false),
        ],
    );
    assert_eq!(
        refused(&sig, &call(2, &["default"])),
        BindError::TooMany { count: TooManyWording::Python, max: 1, actual: 3 }
    );
    assert_eq!(
        refused(&sig, &call(1, &["obj"])),
        BindError::Conflict { wording: FieldWording::Python, field: 0, pos: 1 }
    );
    assert_eq!(refused(&sig, &call(1, &["indent", "indent"])), BindError::MultipleValues { field: 1 });
    // an unknown keyword comes before a missing argument
    assert_eq!(
        refused(&sig, &call(0, &["nope"])),
        BindError::UnknownKeyword { unknown: UnknownWording::ErrorName, keyword: 0 }
    );
    assert_eq!(
        refused(&sig, &call(0, &["default"])),
        BindError::Missing { wording: FieldWording::Python, field: 0, pos: 1 }
    );
    assert_eq!(refused(&sig, &call(1, &[])), BindError::MissingKeywordOnly { field: 2 });
    let mut odd = call(1, &["default"]);
    odd.keywords[0].name = None;
    assert_eq!(refused(&sig, &odd), BindError::NonStringKey { keyword: 0 });
    let mut heap = call(1, &["c", "x"]);
    heap.keywords[1].interned = false;
    assert_eq!(refused(&everything(attrs("f")), &heap), BindError::NonStringKey { keyword: 1 });
}

#[test]
fn faults_of_c_functions() {
    let fields = || {
        vec![
            decl("year", FieldKind::PosOrKeyword, false),
            decl("month", FieldKind::PosOrKeyword, false),
            decl("fold", FieldKind::KwOnly, false),
        ]
    };
    let style = |style| StructAttrs { error_style: style, ..attrs("datetime") };
    let c = signature(style(ErrorStyle::C(AtMostStyle::Standard)), fields());
    // a missing positional argument comes before an unknown keyword ...
    assert_eq!(
        refused(&c, &call(1, &["nope", "other"])),
        BindError::Missing { wording: FieldWording::C, field: 1, pos: 2 }
    );
    // ... which comes before a missing keyword-only argument
    assert_eq!(
        refused(&c, &call(2, &["nope", "other"])),
        BindError::UnknownKeyword { unknown: UnknownWording::Anonymous, keyword: 0 }
    );
    assert_eq!(refused(&c, &call(2, &[])), BindError::MissingKeywordOnly { field: 2 });
    assert_eq!(refused(&c, &call(3, &[])), BindError::TooMany { count: TooManyWording::C, max: 2, actual: 3 });
    assert_eq!(c.conflict_descriptor(), "datetime");
    let positional = signature(style(ErrorStyle::C(AtMostStyle::Positional)), fields());
    assert_eq!(
        refused(&positional, &call(3, &[])),
        BindError::TooMany { count: TooManyWording::CPositionalOrTotal(3), max: 2, actual: 3 }
    );
    let named = signature(style(ErrorStyle::NamedC), fields());
    assert_eq!(named.conflict_descriptor(), "datetime()");
    assert_eq!(
        refused(&named, &call(2, &["year"])),
        BindError::Conflict { wording: FieldWording::NamedC, field: 0, pos: 1 }
    );
    assert_eq!(
        refused(&named, &call(2, &["nope"])),
        BindError::UnknownKeyword { unknown: UnknownWording::Function, keyword: 0 }
    );
    let total = StructAttrs { at_most_total: true, ..style(ErrorStyle::C(AtMostStyle::Positional)) };
    assert_eq!(
        refused(&signature(total, fields()), &call(2, &["nope"])),
        BindError::TooMany { count: TooManyWording::CPositional, max: 2, actual: 3 }
    );
}

#[test]
fn counts_are_checked_first() {
    let fields = || vec![decl("old", FieldKind::PosOnly, false), decl("count", FieldKind::PosOrKeyword, true)];
    let method = signature(attrs("replace"), fields());
    assert!(method.use_c_method_arity_wording());
    assert_eq!(refused(&method, &call(0, &["count"])), BindError::TooFew { required: 1, actual: 0 });
    assert_eq!(
        refused(&method, &call(3, &[])),
        BindError::TooMany { count: TooManyWording::Method, max: 2, actual: 3 }
    );
    let exact = signature(StructAttrs { expected_exact: true, ..attrs("sorted") }, fields());
    assert_eq!(refused(&exact, &call(0, &["count"])), BindError::ExpectedExact { required: 1, actual: 0 });
    assert_eq!(refused(&exact, &call(2, &[])), BindError::ExpectedExact { required: 1, actual: 2 });
    let none = signature(StructAttrs { kwargs_not_supported_yet: true, ..attrs("gather") }, fields());
    assert_eq!(refused(&none, &call(9, &["count"])), BindError::KeywordsNotSupported);
}

#[test]
fn positional_only_fields_refuse_their_keyword() {
    let mut given = decl("x", FieldKind::PosOnly, true);
    given.static_string = Some("X".to_owned());
    let sig = signature(attrs("f"), vec![given, decl("y", FieldKind::PosOnly, true)]);
    assert_eq!(refused(&sig, &call(0, &["x"])), BindError::PositionalOnly { field: 0 });
    assert_eq!(
        refused(&sig, &call(0, &["y"])),
        BindError::UnknownKeyword { unknown: UnknownWording::ErrorName, keyword: 0 }
    );
}

#[test]
fn values_convert_in_order() {
    let sig = everything(StructAttrs { bad_arg: Some(BadArgStyle::Named), ..attrs("f") });
    let mut args = call(4, &["c"]);
    args.positional[1] = false;
    args.positional[3] = false;
    args.keywords[0].converts = false;
    assert_eq!(
        refused(&sig, &args),
        BindError::BadValue {
            arg: ArgRef::Positional(1),
            field: 1,
            style: Some(BadArgStyle::Named),
            pos: 2
        }
    );
    args.positional[1] = true;
    assert_eq!(
        refused(&sig, &args),
        BindError::BadValue { arg: ArgRef::Positional(3), field: 2, style: None, pos: 0 }
    );
    args.positional[3] = true;
    assert_eq!(
        refused(&sig, &args),
        BindError::BadValue {
            arg: ArgRef::Keyword(0),
            field: 3,
            style: Some(BadArgStyle::Named),
            pos: 0
        }
    );
}

#[test]
fn misplaced_fields_are_refused() {
    let error = |kinds: &[FieldKind]| {
        let fields = kinds.iter().map(|k| decl("x", *k, false)).collect();
        Signature::parse(attrs("f"), Some(fields)).err().expect("a refusal")
    };
    assert_eq!(
        error(&[FieldKind::Varkwargs, FieldKind::PosOnly]),
        "no fields may appear after a `#[from_args(varkwargs)]` field"
    );
    assert_eq!(
        error(&[FieldKind::PosOrKeyword, FieldKind::PosOnly]),
        "positional-only fields must come before positional-or-keyword, varargs, and keyword-only fields"
    );
    assert_eq!(
        error(&[FieldKind::KwOnly, FieldKind::PosOrKeyword]),
        "positional-or-keyword fields cannot appear after keyword-only fields"
    );
    assert_eq!(
        error(&[FieldKind::Varargs, FieldKind::Varargs]),
        "only one `#[from_args(varargs)]` field is allowed"
    );
    assert_eq!(
        Signature::parse(attrs("f"), None).err().as_deref(),
        Some("FromArgs can only be derived for structs with named fields")
    );
}

#[test]
fn options_that_exclude_each_other() {
    let error = |attrs: StructAttrs, kind: FieldKind| {
        let message = Signature::parse(attrs, Some(vec![decl("x", kind, false)])).err().expect("a refusal");
        message.split(" — ").next().expect("text").to_owned()
    };
    let total = || StructAttrs { at_most_total: true, ..attrs("f") };
    assert_eq!(
        error(total(), FieldKind::Varkwargs),
        "`at_most_total` cannot be combined with `varargs` or `varkwargs`"
    );
    let exact = || StructAttrs { expected_exact: true, ..attrs("f") };
    assert_eq!(
        error(exact(), FieldKind::Varargs),
        "`expected_exact` cannot be combined with `varargs` or `at_most_total`"
    );
    assert_eq!(
        error(StructAttrs { at_most_total: true, ..exact() }, FieldKind::PosOnly),
        "`expected_exact` cannot be combined with `varargs` or `at_most_total`"
    );
    let none = || StructAttrs { kwargs_not_supported_yet: true, ..attrs("f") };
    assert_eq!(
        error(none(), FieldKind::Varkwargs),
        "`kwargs_not_supported_yet` cannot be combined with `varkwargs`"
    );
    assert_eq!(
        error(none(), FieldKind::KwOnly),
        "`kwargs_not_supported_yet` cannot be combined with `kw_only` fields"
    );
    assert_eq!(
        error(StructAttrs { kwarg_error_name: Some("g".to_owned()), ..none() }, FieldKind::PosOnly),
        "`kwargs_not_supported_yet` cannot be combined with `kwarg_error_name`"
    );
}

fn flag(key: &str) -> MetaEntry {
    MetaEntry { key: key.to_owned(), text: Err("expected `=`".to_owned()), assigned: false, expr_error: None }
}

fn text(key: &str, value: &str) -> MetaEntry {
    MetaEntry { key: key.to_owned(), text: Ok(value.to_owned()), assigned: true, expr_error: None }
}

#[test]
fn struct_attributes_are_read() {
    let read = parse_struct_attrs(&vec![
        flag("at_most_positional"),
        text("name", "date"),
        flag("c_error"),
        flag("bad_arg"),
        text("kwarg_error_name", "init"),
    ])
    .ok()
    .expect("attributes");
    assert_eq!(read.name, "date");
    assert_eq!(read.error_style, ErrorStyle::C(AtMostStyle::Positional));
    assert_eq!(read.bad_arg, Some(BadArgStyle::Positional));
    assert_eq!(read.kwarg_error_name.as_deref(), Some("init"));
    assert!(!read.at_most_total && !read.expected_exact && !read.kwargs_not_supported_yet);
    let read = parse_struct_attrs(&vec![
        text("name", "f"),
        flag("c_error_named"),
        flag("at_most_total"),
        flag("expected_exact"),
        flag("bad_arg_named"),
        flag("kwargs_not_supported_yet"),
    ])
    .ok()
    .expect("attributes");
    assert_eq!(read.error_style, ErrorStyle::NamedC);
    assert_eq!(read.bad_arg, Some(BadArgStyle::Named));
    assert!(read.at_most_total && read.expected_exact && read.kwargs_not_supported_yet);
    let error = |entries: Vec<MetaEntry>| parse_struct_attrs(&entries).err().expect("an error");
    assert_eq!(
        error(vec![flag("bad_arg"), flag("bad_arg_named")]),
        "`bad_arg` and `bad_arg_named` are mutually exclusive"
    );
    assert_eq!(
        error(vec![flag("c_error_named"), flag("c_error")]),
        "`c_error` and `c_error_named` are mutually exclusive"
    );
    assert_eq!(error(vec![]), "missing `#[from_args(name = \"...\")]` on the struct");
    assert_eq!(error(vec![flag("name")]), "expected `=`");
    assert!(error(vec![flag("colour"), flag("name")]).starts_with("unknown struct attribute; expected `name"));
}

#[test]
fn field_attributes_are_read() {
    let read = parse_field_attrs(&vec![flag("kw_only"), text("static_string", "Key"), text("default", "")])
        .ok()
        .expect("attributes");
    assert_eq!(read.kind, FieldKind::KwOnly);
    assert_eq!(read.default, Some(DefaultSource::Entry(2)));
    assert_eq!(read.static_string.as_deref(), Some("Key"));
    let read = parse_field_attrs(&vec![flag("default")]).ok().expect("attributes");
    assert_eq!((read.kind, read.default), (FieldKind::PosOrKeyword, Some(DefaultSource::TypeDefault)));
    let error = |entries: Vec<MetaEntry>| parse_field_attrs(&entries).err().expect("an error");
    assert_eq!(
        error(vec![flag("pos_only"), flag("varargs")]),
        "only one of `pos_only`, `kw_only`, `varargs`, `varkwargs` may be set"
    );
    assert_eq!(error(vec![flag("default"), flag("default")]), "duplicate `default` attribute");
    assert_eq!(error(vec![flag("varkwarg")]), "unknown field attribute");
    let broken = MetaEntry { expr_error: Some("expected expression".to_owned()), ..text("default", "") };
    assert_eq!(error(vec![broken]), "expected expression");
}

#[test]
fn keywords_are_looked_up_by_id() {
    assert_eq!(snake_to_pascal("max_split"), "MaxSplit");
    assert_eq!(snake_to_pascal("__key__x"), "KeyX");
    assert_eq!(snake_to_pascal("ßa_éb"), "SSaÉb");
    let id = |field: FieldDecl| kwarg_string_id(&field);
    assert!(matches!(id(decl("x", FieldKind::PosOrKeyword, false)), KeywordId::Ascii(120)));
    assert!(matches!(id(decl("é", FieldKind::PosOrKeyword, false)), KeywordId::Interned(n) if n == "É"));
    assert!(matches!(id(decl("end_of", FieldKind::PosOrKeyword, false)), KeywordId::Interned(n) if n == "EndOf"));
    let given = FieldDecl { static_string: Some("Start".to_owned()), ..decl("x", FieldKind::PosOnly, false) };
    assert!(matches!(id(given), KeywordId::Interned(n) if n == "Start"));
}
