use abi_stable::std_types::RString;
use monty_host::ext_api::{
    into_ext_result, pairs_into_ext_value, ExtArgs, ExtContext, ExtDict, ExtError, ExtHandle, ExtKeyValue, ExtList,
    ExtManifest, ExtValue, FromExtValue, ResourceBudget, TryIntoExtValue, API_VERSION,
};
use monty_host::ext_exports::{
    collect_method_types, expand_handle_variant, expand_monty_extension, expand_monty_handles,
    expand_monty_module_mod, export_table, extract_export_kind, impl_table_exports, mod_table_exports, generate_mod_handle_code, group_mod_methods, parse_extension_attr,
    parse_handles_attr, retained_attrs, AttrModel, AttrRole, Export, HandleSource, ImplItemModel, Marker, MemberModel,
    ModItemModel, ReceiverShape, SigModel, VariantModel, Wanted,
};
use monty_host::ext_macros::{
    build_dispatch_body, build_mod_dispatch_body, group_by_key, snake_case, ArgPlan, CallMode, Param, TypeShape,
};
use monty_host::ext_runtime::{short_type_name, ExportTable, HandleClass, HandleStore};

fn strings(names: &[&str]) -> Vec<String> {
    names.iter().map(|n| (*n).to_owned()).collect()
}

fn args(positional: Vec<ExtValue>, keyword: Vec<ExtKeyValue>) -> ExtArgs {
    ExtArgs { positional: ExtList::new(positional), keyword: ExtDict::new(keyword) }
}

fn ctx() -> ExtContext {
    ExtContext { budget: ResourceBudget { remaining_time_ms: None, remaining_allocations: None } }
}

enum Object {
    Item { label: String, count: i64 },
    Counter(i64),
}

/// What the code generated for an extension does.
struct Extension {
    table: ExportTable,
    classes: Vec<HandleClass>,
    store: HandleStore<Object>,
    version: &'static str,
    skill: &'static str,
    stubs: &'static str,
}

type Call = fn(&mut Extension, &ExtArgs) -> Result<ExtValue, ExtError>;

impl Extension {
    fn new(table: ExportTable, version: &'static str) -> Self {
        let classes = table
            .classes
            .iter()
            .map(|class| HandleClass {
                full_name: class.class.clone(),
                short_name: class.short_name.clone(),
                extension_id: table.module_name.clone(),
            })
            .collect();
        Extension { table, classes, store: HandleStore::new(), version, skill: "# skill", stubs: "def f(): ..." }
    }

    /// The extension of an impl block whose handles are those of `variants`.
    fn of_impl(module: &str, version: &'static str, variants: &[&str], items: Vec<ImplItemModel>) -> Self {
        let variants: Vec<VariantModel> =
            variants.iter().map(|name| VariantModel { name: (*name).to_owned(), fields: Some(1) }).collect();
        let names = expand_monty_handles(&variants, module).ok().expect("handles");
        let inferred: Vec<(String, String)> = names.into_iter().map(|n| (n.handle, n.class)).collect();
        let exports = expand_monty_extension(false, &items).ok().expect("exports");
        Extension::new(export_table(module, &impl_table_exports(exports), &inferred), version)
    }

    fn manifest(&self) -> ExtManifest {
        self.table.manifest(self.version, self.skill, Some(self.stubs.to_owned()))
    }

    fn call(&mut self, name: &str, calls: &[Call], args: &ExtArgs, _ctx: &ExtContext) -> Result<ExtValue, ExtError> {
        let index = self.table.resolve_call(name)?;
        calls[index](self, args)
    }

    fn store_object(&mut self, class: usize, object: Object) -> ExtValue {
        assert!(self.store.has_room());
        let id = self.store.store(class, object);
        ExtValue::Handle(self.classes[class].handle(id))
    }

    fn call_method(&mut self, handle: &ExtHandle, method: &str, args: &ExtArgs) -> Result<ExtValue, ExtError> {
        let (class, index) = self.table.resolve_method(handle, method)?;
        let name = self.table.classes[class].methods[index].clone();
        let value = ExtValue::Handle(handle.duplicate());
        let handle = self.classes[class].from_ext_value(&value, &name, "self")?;
        let short = self.classes[class].short_name.clone();
        let _ = args;
        if name == "increment" {
            match self.store.take_object(class, handle.handle_id, &name, &short)? {
                Object::Counter(n) => self.store.put_back(class, handle.handle_id, Object::Counter(n + 1)),
                other => self.store.put_back(class, handle.handle_id, other),
            }
            return into_ext_result(());
        }
        match self.store.borrow_object(class, handle.handle_id, &name, &short)? {
            Object::Item { label, count } => match name.as_str() {
                "label" => into_ext_result(label.clone()),
                "count" | "value" => into_ext_result(*count),
                _ => into_ext_result(format!("{label}({count})")),
            },
            Object::Counter(n) => into_ext_result(*n),
        }
    }

    fn shutdown(&mut self) {
        self.store.clear();
    }
}

fn typed(name: &str, ty: TypeShape, ty_text: &str) -> Param {
    Param { ty_text: ty_text.to_owned(), ..param(name, ty) }
}

fn impl_fn(attrs: Vec<AttrModel>, name: &str, params: Vec<Param>) -> ImplItemModel {
    ImplItemModel::Fn { attrs, sig: sig(name, ReceiverShape::SharedRef, params) }
}

fn mod_fn(attrs: Vec<AttrModel>, name: &str, params: Vec<Param>) -> ModItemModel {
    ModItemModel::Fn { attrs, sig: sig(name, ReceiverShape::Absent, params) }
}

fn method(attrs: Vec<AttrModel>, name: &str, handle: &str) -> MemberModel {
    MemberModel::Fn { attrs, sig: sig(name, ReceiverShape::Absent, vec![param("this", path(handle))]) }
}

fn methods(class: &str, members: Vec<MemberModel>) -> ModItemModel {
    ModItemModel::Impl {
        attrs: vec![attr("monty_methods", &[])],
        is_trait_impl: false,
        self_name: Some(class.to_owned()),
        members,
    }
}

fn modtest() -> Extension {
    let plain = || vec![attr("monty_function", &[])];
    let items = vec![
        ModItemModel::Other,
        ModItemModel::Struct { attrs: vec![attr("monty_class", &[])] },
        ModItemModel::Struct { attrs: vec![attr("monty_class", &[])] },
        mod_fn(plain(), "make_item", vec![param("label", reference("str")), param("count", option())]),
        mod_fn(vec![attr("monty_function", &[("name", "greet")])], "greet_fn", vec![param("name", reference("str"))]),
        mod_fn(plain(), "make_counter", vec![param("initial", path("i64"))]),
        methods(
            "Item",
            vec![
                method(vec![attr("expect", &[])], "label", "ItemHandle"),
                method(vec![attr("expect", &[])], "count", "ItemHandle"),
                method(
                    vec![attr("expect", &[]), attr("monty_method", &[("name", "display")])],
                    "display_method",
                    "ItemHandle",
                ),
            ],
        ),
        methods(
            "Counter",
            vec![method(vec![], "value", "CounterHandle"), method(vec![], "increment", "CounterHandle")],
        ),
        mod_fn(vec![attr("monty_shutdown", &[])], "shutdown", vec![]),
    ];
    let exports = expand_monty_module_mod(&Some(items), "modtest").ok().expect("exports");
    Extension::new(export_table("modtest", &mod_table_exports(exports), &vec![]), "0.3.0")
}

const MODTEST: &[Call] = &[
    |ext, args| {
        let label: &str = args.argument(0, "make_item", "label")?;
        let count: Option<i64> = args.optional_argument(1, "make_item", "count")?;
        Ok(ext.store_object(0, Object::Item { label: label.to_owned(), count: count.unwrap_or(0) }))
    },
    |_, args| {
        let name: &str = args.argument(0, "greet", "name")?;
        into_ext_result(format!("hello {name}"))
    },
    |ext, args| {
        let initial: i64 = args.argument(0, "make_counter", "initial")?;
        Ok(ext.store_object(1, Object::Counter(initial)))
    },
];

fn text(value: Result<ExtValue, ExtError>) -> String {
    match value {
        Ok(ExtValue::Str(s)) => s.as_str().to_owned(),
        other => panic!("unexpected result: {other:?}"),
    }
}

fn handle(value: Result<ExtValue, ExtError>) -> ExtHandle {
    match value {
        Ok(ExtValue::Handle(h)) => h,
        other => panic!("unexpected result: {other:?}"),
    }
}

fn integer(value: Result<ExtValue, ExtError>) -> i64 {
    match value {
        Ok(ExtValue::Int(v)) => v,
        other => panic!("unexpected result: {other:?}"),
    }
}

fn failure(value: Result<ExtValue, ExtError>) -> (String, String) {
    match value {
        Err(error) => (error.exception_type.as_str().to_owned(), error.message.as_str().to_owned()),
        other => panic!("unexpected result: {other:?}"),
    }
}

fn string(s: &str) -> ExtValue {
    ExtValue::string(s.to_owned())
}

fn none() -> ExtArgs {
    args(vec![], vec![])
}

#[test]
fn module_level_manifest_is_correct() {
    let manifest = modtest().manifest();
    assert_eq!(manifest.module_name.as_str(), "modtest");
    assert_eq!(manifest.version.as_str(), "0.3.0");
    assert_eq!(manifest.functions.len(), 3);
    assert_eq!(manifest.functions[0].name.as_str(), "make_item");
    assert_eq!(manifest.functions[1].name.as_str(), "greet");
    assert_eq!(manifest.functions[2].name.as_str(), "make_counter");
    assert!(manifest.functions.iter().all(|f| f.is_native));
    assert_eq!(manifest.type_stub_source.as_ref().map(RString::as_str), Some("def f(): ..."));
}

#[test]
fn module_level_function_dispatch_works() {
    let mut ext = modtest();
    let result = ext.call("greet", MODTEST, &args(vec![string("world")], vec![]), &ctx());
    assert_eq!(text(result), "hello world");
}

#[test]
fn module_level_optional_arguments_work() {
    let mut ext = modtest();
    let keyword = vec![ExtKeyValue::new("count".to_owned(), ExtValue::Int(42))];
    let handle = handle(ext.call("make_item", MODTEST, &args(vec![string("x")], keyword), &ctx()));
    assert_eq!(integer(ext.call_method(&handle, "count", &none())), 42);
}

#[test]
fn module_level_handle_methods_work() {
    let mut ext = modtest();
    let created = ext.call("make_item", MODTEST, &args(vec![string("widget"), ExtValue::Int(5)], vec![]), &ctx());
    let handle = handle(created);
    assert_eq!(text(ext.call_method(&handle, "label", &none())), "widget");
    assert_eq!(text(ext.call_method(&handle, "display", &none())), "widget(5)");
}

#[test]
fn module_level_multiple_classes_work() {
    let mut ext = modtest();
    let handle = handle(ext.call("make_counter", MODTEST, &args(vec![ExtValue::Int(10)], vec![]), &ctx()));
    assert_eq!(integer(ext.call_method(&handle, "value", &none())), 10);
    assert!(matches!(ext.call_method(&handle, "increment", &none()), Ok(ExtValue::NoneValue)));
    assert_eq!(integer(ext.call_method(&handle, "value", &none())), 11);
}

#[test]
fn module_level_unknown_function_error() {
    let mut ext = modtest();
    let (kind, message) = failure(ext.call("nonexistent", MODTEST, &none(), &ctx()));
    assert_eq!(kind, "AttributeError");
    assert_eq!(message, "module 'modtest' has no function 'nonexistent'");
}

#[test]
fn module_level_unknown_method_error() {
    let mut ext = modtest();
    let handle = ExtHandle::new("modtest.Item", 999, "modtest");
    let (kind, message) = failure(ext.call_method(&handle, "missing", &none()));
    assert_eq!(kind, "AttributeError");
    assert_eq!(message, "'Item' object has no attribute 'missing'");
}

#[test]
fn module_level_unknown_type_error() {
    let mut ext = modtest();
    let handle = ExtHandle::new("modtest.Unknown", 1, "modtest");
    let (kind, message) = failure(ext.call_method(&handle, "anything", &none()));
    assert_eq!(kind, "AttributeError");
    assert_eq!(message, "'Unknown' object has no attribute 'anything'");
}

#[test]
fn module_level_shutdown_clears_objects() {
    let mut ext = modtest();
    handle(ext.call("make_item", MODTEST, &args(vec![string("a")], vec![]), &ctx()));
    handle(ext.call("make_counter", MODTEST, &args(vec![ExtValue::Int(0)], vec![]), &ctx()));
    assert_eq!(ext.store.len(), 2);
    ext.shutdown();
    assert_eq!(ext.store.len(), 0);
}

#[test]
fn module_level_type_error_on_wrong_argument() {
    let mut ext = modtest();
    let (kind, message) = failure(ext.call("greet", MODTEST, &args(vec![ExtValue::Int(42)], vec![]), &ctx()));
    assert_eq!(kind, "TypeError");
    assert_eq!(message, "greet() argument 'name' must be a str");
}

fn ergonomic() -> Extension {
    let items = vec![
        ImplItemModel::Fn { attrs: vec![], sig: sig("new", ReceiverShape::Absent, vec![]) },
        impl_fn(vec![attr("monty_function", &[])], "make_widget", vec![param("label", reference("str"))]),
        impl_fn(vec![attr("monty_function", &[("name", "hello")])], "hello_fn", vec![param("name", reference("str"))]),
        impl_fn(
            vec![attr("monty_method", &[("name", "label")]), attr("expect", &[])],
            "widget_label",
            vec![typed("widget", path("WidgetHandle"), "WidgetHandle")],
        ),
        impl_fn(vec![attr("monty_shutdown", &[])], "cleanup", vec![]),
    ];
    Extension::of_impl("ergo", "0.2.0", &["Widget"], items)
}

const ERGO: &[Call] = &[
    |ext, args| {
        let label: &str = args.argument(0, "make_widget", "label")?;
        Ok(ext.store_object(0, Object::Item { label: label.to_owned(), count: 0 }))
    },
    |_, args| {
        let name: String = args.argument(0, "hello", "name")?;
        into_ext_result(format!("hi {name}"))
    },
];

#[test]
fn ergonomic_manifest_and_dispatch_work() {
    let manifest = ergonomic().manifest();
    assert_eq!(manifest.module_name.as_str(), "ergo");
    assert_eq!(manifest.version.as_str(), "0.2.0");
    assert_eq!(manifest.functions.len(), 2);
    assert_eq!(manifest.functions[0].name.as_str(), "make_widget");
    assert_eq!(manifest.functions[1].name.as_str(), "hello");
}

#[test]
fn ergonomic_function_dispatch_works() {
    let result = ergonomic().call("hello", ERGO, &args(vec![string("world")], vec![]), &ctx());
    assert_eq!(text(result), "hi world");
}

#[test]
fn ergonomic_handle_methods_work() {
    let mut ext = ergonomic();
    let handle = handle(ext.call("make_widget", ERGO, &args(vec![string("btn")], vec![]), &ctx()));
    assert_eq!(text(ext.call_method(&handle, "label", &none())), "btn");
}

#[test]
fn ergonomic_unknown_method_uses_attribute_error() {
    let handle = ExtHandle::new("ergo.Widget", 999, "ergo");
    let (kind, message) = failure(ergonomic().call_method(&handle, "nonexistent", &none()));
    assert_eq!(kind, "AttributeError");
    assert_eq!(message, "'Widget' object has no attribute 'nonexistent'");
}

#[test]
fn ergonomic_shutdown_clears_objects() {
    let mut ext = ergonomic();
    handle(ext.call("make_widget", ERGO, &args(vec![string("x")], vec![]), &ctx()));
    assert_eq!(ext.store.len(), 1);
    ext.shutdown();
    assert_eq!(ext.store.len(), 0);
}

fn sample() -> Extension {
    let items = vec![
        ImplItemModel::Fn { attrs: vec![], sig: sig("new", ReceiverShape::Absent, vec![]) },
        impl_fn(vec![attr("function", &[])], "make_record", vec![param("value", path("i64"))]),
        impl_fn(
            vec![attr("function", &[])],
            "greet",
            vec![param("name", reference("str")), param("excited", option())],
        ),
        impl_fn(
            vec![attr("method", &[("name", "value")]), attr("expect", &[])],
            "value_method",
            vec![typed("record", path("RecordHandle"), "RecordHandle")],
        ),
        impl_fn(vec![attr("shutdown", &[])], "shutdown_extension", vec![]),
    ];
    Extension::of_impl("sample", "0.1.0", &["Record"], items)
}

const SAMPLE: &[Call] = &[
    |ext, args| {
        let value: i64 = args.argument(0, "make_record", "value")?;
        Ok(ext.store_object(0, Object::Item { label: String::new(), count: value }))
    },
    |_, args| {
        let name: &str = args.argument(0, "greet", "name")?;
        let excited: Option<bool> = args.optional_argument(1, "greet", "excited")?;
        let suffix = if excited.unwrap_or(false) { "!" } else { "." };
        into_ext_result(format!("hello {name}{suffix}"))
    },
];

#[test]
fn macro_generated_manifest_and_dispatch_work() {
    let manifest = sample().manifest();
    assert_eq!(manifest.module_name.as_str(), "sample");
    assert_eq!(manifest.version.as_str(), "0.1.0");
    assert_eq!(manifest.functions.len(), 2);
    assert_eq!(manifest.functions[0].name.as_str(), "make_record");
    assert_eq!(manifest.functions[1].name.as_str(), "greet");
}

#[test]
fn macro_generated_optional_keyword_arguments_work() {
    let keyword = vec![ExtKeyValue::new("excited".to_owned(), ExtValue::Bool(true))];
    let result = sample().call("greet", SAMPLE, &args(vec![string("Ada")], keyword), &ctx());
    assert_eq!(text(result), "hello Ada!");
}

#[test]
fn macro_generated_handle_methods_work() {
    let mut ext = sample();
    let handle = handle(ext.call("make_record", SAMPLE, &args(vec![ExtValue::Int(41)], vec![]), &ctx()));
    assert_eq!(integer(ext.call_method(&handle, "value", &none())), 41);
}

#[test]
fn macro_generated_errors_preserve_python_style_messages() {
    let (kind, message) = failure(sample().call("greet", SAMPLE, &args(vec![ExtValue::Int(1)], vec![]), &ctx()));
    assert_eq!(kind, "TypeError");
    assert_eq!(message, "greet() argument 'name' must be a str");
}

#[test]
fn macro_generated_unknown_methods_use_attribute_error() {
    let handle = ExtHandle::new("sample.Record", 999, "sample");
    let (kind, message) = failure(sample().call_method(&handle, "missing", &none()));
    assert_eq!(kind, "AttributeError");
    assert_eq!(message, "'Record' object has no attribute 'missing'");
}

#[test]
fn every_conversion_error_says_what_was_expected() {
    let value = ExtValue::NoneValue;
    let expected = |r: Result<(), ExtError>| r.err().expect("an error").message.as_str().to_owned();
    let say = |what: &str| format!("f() argument 'p' must be {what}");
    assert_eq!(expected(bool::from_ext_value(&value, "f", "p").map(|_| ())), say("a bool"));
    assert_eq!(expected(i64::from_ext_value(&value, "f", "p").map(|_| ())), say("an int"));
    assert_eq!(expected(usize::from_ext_value(&ExtValue::Int(-1), "f", "p").map(|_| ())), say("a non-negative int"));
    assert_eq!(expected(<&[u8]>::from_ext_value(&value, "f", "p").map(|_| ())), say("bytes"));
    assert_eq!(expected(<&ExtHandle>::from_ext_value(&value, "f", "p").map(|_| ())), say("a handle"));
    assert_eq!(usize::from_ext_value(&ExtValue::Int(7), "f", "p").ok(), Some(7));
    let bytes = ExtValue::byte_string(vec![1, 2]);
    assert_eq!(<&[u8]>::from_ext_value(&bytes, "f", "p").ok(), Some(&[1u8, 2][..]));
    let class = HandleClass {
        full_name: "m.A".to_owned(),
        short_name: "A".to_owned(),
        extension_id: "m".to_owned(),
    };
    let other = ExtValue::Handle(ExtHandle::new("m.B", 1, "m"));
    assert_eq!(expected(class.from_ext_value(&other, "f", "p").map(|_| ())), say("a m.A handle"));
    assert_eq!(expected(class.from_ext_value(&value, "f", "p").map(|_| ())), say("a handle"));
    let given = args(vec![ExtValue::Int(1)], vec![ExtKeyValue::new("x".to_owned(), ExtValue::Int(2))]);
    // a positional argument hides the keyword of the same name
    assert_eq!(given.argument::<i64>(0, "f", "x").ok(), Some(1));
    assert_eq!(given.argument::<i64>(1, "f", "x").ok(), Some(2));
    assert_eq!(expected(given.get::<i64>(1, "f", "x").map(|_| ())), "f() missing required argument: 'x'");
    assert_eq!(expected(given.argument::<i64>(3, "f", "y").map(|_| ())), "f() missing required argument: 'y'");
    assert_eq!(given.optional_argument::<i64>(3, "f", "y").ok(), Some(None));
    assert!(given.raw_kwarg("x").is_some() && given.raw_kwarg("y").is_none());
    assert_eq!(API_VERSION, 1);
}

#[test]
fn tables_group_methods_by_class() {
    let shared = |name: &str, attrs, handle: &str| impl_fn(attrs, name, vec![typed("h", path(handle), handle)]);
    let items = vec![
        shared("a", vec![attr("method", &[])], "AHandle"),
        shared("b", vec![attr("method", &[("handle", "m.B")])], "ExtHandle"),
        shared("c", vec![attr("method", &[])], "AHandle"),
        shared("d", vec![attr("method", &[])], "Unlisted"),
    ];
    let exports = impl_table_exports(expand_monty_extension(false, &items).ok().expect("exports"));
    let table = export_table("m", &exports, &vec![("AHandle".to_owned(), "m.A".to_owned())]);
    let classes: Vec<(&str, &str, &[String])> = table
        .classes
        .iter()
        .map(|c| (c.class.as_str(), c.short_name.as_str(), c.methods.as_slice()))
        .collect();
    let (ac, b, d) = (strings(&["a", "c"]), strings(&["b"]), strings(&["d"]));
    assert_eq!(
        classes,
        vec![("m.A", "A", ac.as_slice()), ("m.B", "B", b.as_slice()), ("Unlisted", "Unlisted", d.as_slice())]
    );
    assert!(table.functions.is_empty());
    assert_eq!(table.resolve_method(&ExtHandle::new("m.A", 1, "m"), "c").ok(), Some((0, 1)));
}

#[test]
fn clones_are_copies() {
    let value = ExtValue::list(vec![
        string("x"),
        ExtValue::dict(vec![ExtKeyValue::new("k".to_owned(), ExtValue::Handle(ExtHandle::new("m.A", 3, "m")))]),
        ExtValue::byte_string(vec![1, 2]),
        ExtValue::Float(7),
    ]);
    let copy = ExtValue::from_ext_value(&value, "f", "p").ok().expect("any value");
    assert_eq!(format!("{copy:?}"), format!("{value:?}"));
    let given = args(vec![ExtValue::Int(1)], vec![ExtKeyValue::new("k".to_owned(), string("v"))]);
    assert_eq!(format!("{:?}", given.clone()), format!("{given:?}"));
    let error = ExtError::unknown_function("m", "f");
    assert_eq!(error.clone().message.as_str(), error.message.as_str());
    assert_eq!(ExtValue::from("s").as_str(), Some("s"));
    assert_eq!(ExtValue::from("t".to_owned()).as_str(), Some("t"));
    assert!(matches!(ExtValue::from(vec![ExtValue::Int(1)]), ExtValue::List(l) if l.len() == 1));
    assert!(matches!(ExtValue::from(vec![ExtKeyValue::new("k".to_owned(), ExtValue::Int(1))]),
        ExtValue::Dict(d) if d.len() == 1));
}

#[test]
fn results_convert_element_by_element() {
    assert!(matches!(into_ext_result(7u32), Ok(ExtValue::Int(7))));
    let (kind, message) = failure(into_ext_result(u64::MAX));
    assert_eq!((kind.as_str(), message.as_str()), ("ValueError", "u64 value does not fit in Monty's 64-bit integer range"));
    let (_, message) = failure(vec![1usize, usize::MAX].try_into_ext_value());
    assert_eq!(message, "usize value does not fit in Monty's 64-bit integer range");
    let list = vec![Some("a"), None].try_into_ext_value().ok().expect("list");
    match &list {
        ExtValue::List(items) => {
            assert_eq!(items.len(), 2);
            assert_eq!(items.get(0).and_then(ExtValue::as_str), Some("a"));
            assert!(matches!(items.get(1), Some(ExtValue::NoneValue)));
        }
        other => panic!("{other:?}"),
    }
    assert_eq!(list.kind_name(), "list");
    let dict = pairs_into_ext_value(vec![("k".to_owned(), true)]).ok().expect("dict");
    match &dict {
        ExtValue::Dict(pairs) => {
            assert_eq!(pairs.find("k").and_then(ExtValue::as_bool), Some(true));
            assert_eq!(pairs.len(), 1);
            assert_eq!(pairs.get(0).map(|pair| pair.key.as_str()), Some("k"));
            assert!(pairs.get(1).is_none() && pairs.find("j").is_none());
        }
        other => panic!("{other:?}"),
    }
    let refused: Result<i64, ExtError> = Err(ExtError::key_error("gone".to_owned()));
    assert_eq!(failure(into_ext_result(refused)).0, "KeyError");
    assert_eq!(ExtValue::Int(3).as_int(), Some(3));
    assert!(matches!(ExtValue::from(true), ExtValue::Bool(true)));
    assert!(matches!(ExtValue::from(4u32), ExtValue::Int(4)));
    assert!(matches!(ExtValue::from(-4i32), ExtValue::Int(-4)));
    let stale = ExtError::invalid_handle("f", "A", 12);
    assert_eq!(stale.message.as_str(), "f(): invalid A handle (id=12)");
}

#[test]
fn stale_handles_are_refused() {
    let mut store: HandleStore<i64> = HandleStore::new();
    let first = store.store(0, 10);
    let second = store.store(1, 20);
    assert_eq!((first, second), (1, 2));
    assert_eq!(store.borrow_object(0, first, "f", "A").ok(), Some(&10));
    assert!(store.borrow_object(1, first, "f", "B").is_err(), "wrong class");
    store.clear();
    assert!(store.borrow_object(0, first, "f", "A").is_err());
    assert_eq!(store.store(0, 30), 3, "ids are not handed out again");
    assert_eq!(short_type_name("a.b.C"), "C");
    assert_eq!(short_type_name("C"), "C");
}

fn param(name: &str, ty: TypeShape) -> Param {
    Param { typed: true, name: Some(name.to_owned()), ty, ty_text: "T".to_owned() }
}

fn path(last: &str) -> TypeShape {
    TypeShape::Path { last: last.to_owned(), first_is_type: false }
}

fn option() -> TypeShape {
    TypeShape::Path { last: "Option".to_owned(), first_is_type: true }
}

fn reference(last: &str) -> TypeShape {
    TypeShape::RefPath { last: last.to_owned() }
}

#[test]
fn arguments_are_taken_by_position() {
    let params = vec![
        param("ctx", reference("ExtContext")),
        param("a", path("i64")),
        param("b", option()),
        param("raw", reference("ExtArgs")),
        param("c", TypeShape::RefOther),
    ];
    assert_eq!(
        build_dispatch_body(&params, CallMode::Function).ok(),
        Some(vec![
            ArgPlan::Context,
            ArgPlan::Required(0),
            ArgPlan::Optional(1),
            ArgPlan::RawArgs,
            ArgPlan::Required(2)
        ])
    );
    assert_eq!(
        build_mod_dispatch_body(&params, CallMode::Method).ok(),
        Some(vec![
            ArgPlan::Context,
            ArgPlan::HandleTyped,
            ArgPlan::Optional(0),
            ArgPlan::RawArgs,
            ArgPlan::Required(1)
        ])
    );
    let by_ref = vec![param("h", reference("ExtHandle"))];
    assert_eq!(build_dispatch_body(&by_ref, CallMode::Method).ok(), Some(vec![ArgPlan::HandleRef]));
    let by_value = vec![param("h", path("ExtHandle"))];
    assert_eq!(build_dispatch_body(&by_value, CallMode::Method).ok(), Some(vec![ArgPlan::HandleCopy]));
    assert_eq!(
        build_dispatch_body(&vec![], CallMode::Method).err().as_deref(),
        Some("#[method] exports must take a handle parameter after &self")
    );
    assert_eq!(
        build_mod_dispatch_body(&vec![], CallMode::Method).err().as_deref(),
        Some("method must take a handle parameter after the `ext` parameter")
    );
    let unnamed = vec![Param { typed: true, name: None, ty: TypeShape::Other, ty_text: String::new() }];
    assert_eq!(
        build_dispatch_body(&unnamed, CallMode::Function).err().as_deref(),
        Some("exported arguments must use simple identifiers")
    );
    let untyped = vec![Param { typed: false, name: None, ty: TypeShape::Other, ty_text: String::new() }];
    assert_eq!(
        build_dispatch_body(&untyped, CallMode::Function).err().as_deref(),
        Some("unexpected receiver form")
    );
}

#[test]
fn names_are_lowered_to_snake_case() {
    assert_eq!(snake_case("DataFrame"), "data_frame");
    assert_eq!(snake_case("Item"), "item");
    assert_eq!(snake_case("ÄÖ"), "ä_ö");
    let names = generate_mod_handle_code("DataFrame", "polars");
    assert_eq!(names.handle, "DataFrameHandle");
    assert_eq!(names.class, "polars.DataFrame");
    assert_eq!(names.expected, "a polars.DataFrame handle");
    assert_eq!((names.store.as_str(), names.with.as_str()), ("store_data_frame", "with_data_frame"));
    assert_eq!(names.with_mut, "with_data_frame_mut");
    let unit = VariantModel { name: "A".to_owned(), fields: None };
    assert_eq!(
        expand_handle_variant(&unit, "m").err().as_deref(),
        Some("#[monty_handles] variants must be tuple variants with exactly one field")
    );
    let pair = VariantModel { name: "B".to_owned(), fields: Some(2) };
    let good = VariantModel { name: "C".to_owned(), fields: Some(1) };
    assert_eq!(
        expand_monty_handles(&vec![good, pair], "m").err().as_deref(),
        Some("#[monty_handles] variants must contain exactly one field")
    );
}

fn attr(name: &str, entries: &[(&str, &str)]) -> AttrModel {
    AttrModel {
        name: name.to_owned(),
        valueless: entries.is_empty(),
        entries: entries.iter().map(|(k, v)| ((*k).to_owned(), (*v).to_owned())).collect(),
        parse_error: None,
    }
}

fn sig(name: &str, receiver: ReceiverShape, params: Vec<Param>) -> SigModel {
    SigModel { name: name.to_owned(), is_async: false, is_generic: false, receiver, has_inputs: true, params }
}

#[test]
fn impl_blocks_export_what_they_mark() {
    let shared = ReceiverShape::SharedRef;
    let items = vec![
        ImplItemModel::Fn { attrs: vec![], sig: sig("new", ReceiverShape::Absent, vec![]) },
        ImplItemModel::Fn { attrs: vec![attr("function", &[])], sig: sig("make", shared, vec![param("v", path("i64"))]) },
        ImplItemModel::Other,
        ImplItemModel::Fn {
            attrs: vec![attr("doc", &[]), attr("monty_method", &[("name", "value")])],
            sig: sig("value_method", shared, vec![param("record", path("RecordHandle"))]),
        },
        ImplItemModel::Fn { attrs: vec![attr("shutdown", &[])], sig: sig("stop", shared, vec![]) },
    ];
    let exports = expand_monty_extension(false, &items).ok().expect("exports");
    let at: Vec<usize> = exports.iter().map(|e| e.0).collect();
    assert_eq!(at, vec![1, 3, 4]);
    assert!(matches!(&exports[0].1, Export::Function { export_name, args }
        if export_name == "make" && args == &[ArgPlan::Required(0)]));
    assert!(matches!(&exports[1].1, Export::Method { export_name, handle: HandleSource::Inferred(0, ty), args }
        if export_name == "value" && ty == "T" && args == &[ArgPlan::HandleTyped]));
    assert!(matches!(&exports[2].1, Export::Shutdown));
    assert_eq!(
        expand_monty_extension(true, &items).err().as_deref(),
        Some("#[monty_extension] only supports inherent impl blocks")
    );
    let twice = vec![
        ImplItemModel::Fn { attrs: vec![attr("shutdown", &[])], sig: sig("a", shared, vec![]) },
        ImplItemModel::Fn { attrs: vec![attr("shutdown", &[])], sig: sig("b", shared, vec![]) },
    ];
    assert_eq!(
        expand_monty_extension(false, &twice).err().as_deref(),
        Some("only one #[shutdown] method is allowed")
    );
    let error = |attrs, sig| {
        expand_monty_extension(false, &vec![ImplItemModel::Fn { attrs, sig }]).err().expect("an error")
    };
    let function = || vec![attr("function", &[])];
    assert_eq!(
        error(function(), SigModel { is_async: true, ..sig("f", shared, vec![]) }),
        "async extension exports are not supported"
    );
    assert_eq!(
        error(function(), SigModel { is_generic: true, ..sig("f", shared, vec![]) }),
        "generic extension exports are not supported"
    );
    assert_eq!(
        error(function(), sig("f", ReceiverShape::Other, vec![])),
        "exported extension methods must take &self"
    );
    let untyped_handle = sig("f", shared, vec![param("h", path("ExtHandle"))]);
    assert!(error(vec![attr("method", &[])], untyped_handle).starts_with("#[method] needs `handle = \"module.Type\"`"));
    assert_eq!(
        extract_export_kind(&vec![attr("function", &[]), attr("method", &[])]).err().as_deref(),
        Some("multiple export attributes on the same method are not supported")
    );
    assert_eq!(
        extract_export_kind(&vec![attr("shutdown", &[("x", "y")])]).err().as_deref(),
        Some("#[shutdown] does not accept arguments")
    );
    assert_eq!(
        extract_export_kind(&vec![attr("function", &[("handle", "y")])]).err().as_deref(),
        Some("unsupported #[function(...)] argument")
    );
}

#[test]
fn other_attributes_stay_on_their_items() {
    let attrs = vec![attr("doc", &[]), attr("monty_method", &[]), attr("cfg", &[]), attr("shutdown", &[])];
    assert_eq!(retained_attrs(&attrs, Wanted::AnyExport), vec![0, 2]);
    assert_eq!(retained_attrs(&attrs, Wanted::Only(AttrRole::Method)), vec![0, 2, 3]);
    let marked = vec![attr("monty_class", &[]), attr("derive", &[])];
    assert_eq!(retained_attrs(&marked, Wanted::Named(Marker::Class)), vec![1]);
    assert_eq!(retained_attrs(&marked, Wanted::Named(Marker::Methods)), vec![0, 1]);
}

#[test]
fn modules_export_what_they_mark() {
    let absent = ReceiverShape::Absent;
    let items = Some(vec![
        ModItemModel::Struct { attrs: vec![attr("monty_class", &[])] },
        ModItemModel::Struct { attrs: vec![] },
        ModItemModel::Fn {
            attrs: vec![attr("monty_function", &[("name", "greet")])],
            sig: sig("greet_fn", absent, vec![param("name", reference("str"))]),
        },
        ModItemModel::Impl {
            attrs: vec![attr("monty_methods", &[])],
            is_trait_impl: false,
            self_name: Some("Item".to_owned()),
            members: vec![
                MemberModel::Other,
                MemberModel::Fn { attrs: vec![], sig: sig("label", absent, vec![param("item", path("ItemHandle"))]) },
            ],
        },
        ModItemModel::Fn { attrs: vec![attr("monty_shutdown", &[])], sig: sig("stop", absent, vec![]) },
        ModItemModel::Other,
    ]);
    let exports = expand_monty_module_mod(&items, "modtest").ok().expect("exports");
    let at: Vec<(usize, Option<usize>)> = exports.iter().map(|e| (e.item, e.member)).collect();
    assert_eq!(at, vec![(0, None), (2, None), (3, Some(1)), (4, None)]);
    assert!(matches!(exports[0].export, Export::Class));
    assert!(matches!(&exports[1].export, Export::Function { export_name, .. } if export_name == "greet"));
    assert!(matches!(&exports[2].export, Export::Method { export_name, handle: HandleSource::Explicit(class), .. }
        if export_name == "label" && class == "modtest.Item"));
    assert_eq!(
        expand_monty_module_mod(&None, "m").err().as_deref(),
        Some("#[monty_module] requires an inline module body (`mod name { ... }` not `mod name;`)")
    );
    let error = |item| expand_monty_module_mod(&Some(vec![item]), "m").err().expect("an error");
    assert_eq!(
        error(ModItemModel::Fn {
            attrs: vec![attr("function", &[])],
            sig: sig("f", ReceiverShape::SharedRef, vec![])
        }),
        "module-level functions should take `ext: &Extension`, not `&self`"
    );
    assert_eq!(
        error(ModItemModel::Fn {
            attrs: vec![attr("function", &[])],
            sig: SigModel { has_inputs: false, ..sig("f", absent, vec![]) }
        }),
        "module-level functions must take `ext: &Extension` as the first parameter"
    );
    assert_eq!(
        error(ModItemModel::Fn {
            attrs: vec![attr("function", &[]), attr("monty_function", &[])],
            sig: sig("f", absent, vec![])
        }),
        "duplicate function export attribute"
    );
    assert_eq!(
        error(ModItemModel::Impl {
            attrs: vec![attr("monty_methods", &[])],
            is_trait_impl: true,
            self_name: None,
            members: vec![]
        }),
        "#[monty_methods] cannot be used on trait implementations"
    );
}

#[test]
fn methods_are_grouped_by_class() {
    let keys = strings(&["b", "a", "b", "c", "a"]);
    assert_eq!(group_by_key(&keys), vec![vec![0, 2], vec![1, 4], vec![3]]);
    let handles = vec![
        HandleSource::Explicit("m.A".to_owned()),
        HandleSource::Inferred(0, "m.A".to_owned()),
        HandleSource::Explicit("m.A".to_owned()),
    ];
    assert_eq!(collect_method_types(&handles).1, vec![vec![0, 2], vec![1]]);
    let (names, groups) = group_mod_methods(&strings(&["Item", "Counter", "Item"]), "m");
    assert_eq!(names[0], "m.Item");
    assert_eq!(groups, vec![vec![0, 2], vec![1]]);
}

#[test]
fn module_attributes_need_their_keys() {
    let keys = parse_extension_attr(&strings(&["name", "skill", "version", "name"])).ok().expect("keys");
    assert_eq!((keys.name, keys.version, keys.skill, keys.stubs), (3, 2, 1, None));
    let error = |keys: &[&str]| parse_extension_attr(&strings(keys)).err().expect("an error");
    assert_eq!(error(&["colour"]), "unsupported monty_extension argument");
    assert_eq!(error(&[]), "missing `name = \"module\"` argument");
    assert_eq!(error(&["name"]), "missing `version = \"x.y.z\"` argument");
    assert_eq!(error(&["name", "version"]), "missing `skill = EXPR` argument");
    assert_eq!(parse_handles_attr(&strings(&["module", "extension"])).ok(), Some((1, 0)));
    assert_eq!(
        parse_handles_attr(&strings(&["module"])).err().as_deref(),
        Some("missing `extension = TypeName` argument")
    );
}
