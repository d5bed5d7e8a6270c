//! The exports of an extension: attributes, signatures, and the plan of a whole
//! impl block or module.

use crate::ext_macros::{
    build_dispatch_body, build_mod_dispatch_body, group_by_key, groups_by_key, handle_names, names_class,
    no_handle_message, plan_args, ArgPlan, CallMode, ExportStyle, HandleNames, Param,
};
use crate::ext_runtime::{short_name, short_type_name, ExportTable, MethodTable};
use crate::text::{cat2, cat3, same, views};
use vstd::prelude::*;

verus! {

// ---------------------------------------------------------------------------
// Attributes
// ---------------------------------------------------------------------------

/// An attribute of an item.
pub struct AttrModel {
    /// Its name, where it is a single identifier.
    pub name: String,
    /// Whether it is a bare name or has an empty argument list.
    pub valueless: bool,
    /// Its arguments as keys and values, as far as they could be read.
    pub entries: Vec<(String, String)>,
    /// Why the rest of its arguments could not be read.
    pub parse_error: Option<String>,
}

/// What an attribute marks.
#[derive(Clone, Copy, Debug, PartialEq, Eq, Structural)]
pub enum AttrRole {
    Function,
    Method,
    Shutdown,
    Other,
}

/// What an attribute with this name marks.
pub open spec fn role(name: Seq<char>) -> AttrRole {
    if name == "function"@ || name == "monty_function"@ {
        AttrRole::Function
    } else if name == "method"@ || name == "monty_method"@ {
        AttrRole::Method
    } else if name == "shutdown"@ || name == "monty_shutdown"@ {
        AttrRole::Shutdown
    } else {
        AttrRole::Other
    }
}

/// What an attribute with this name marks.
pub fn attr_role(name: &str) -> (r: AttrRole)
    ensures
        r == role(name@),
{
    if same(name, "function") || same(name, "monty_function") {
        AttrRole::Function
    } else if same(name, "method") || same(name, "monty_method") {
        AttrRole::Method
    } else if same(name, "shutdown") || same(name, "monty_shutdown") {
        AttrRole::Shutdown
    } else {
        AttrRole::Other
    }
}

/// Which attributes are looked for.
#[derive(Clone, Copy, Debug, PartialEq, Eq, Structural)]
pub enum Wanted {
    Only(AttrRole),
    AnyExport,
    Named(Marker),
}

/// The markers of a module's items.
#[derive(Clone, Copy, Debug, PartialEq, Eq, Structural)]
pub enum Marker {
    Class,
    Methods,
}

/// The name of a marker.
pub open spec fn marker_name(marker: Marker) -> Seq<char> {
    match marker {
        Marker::Class => "monty_class"@,
        Marker::Methods => "monty_methods"@,
    }
}

fn marker_text(marker: Marker) -> (r: &'static str)
    ensures
        r@ == marker_name(marker),
{
    match marker {
        Marker::Class => "monty_class",
        Marker::Methods => "monty_methods",
    }
}

/// Whether an attribute is one of those looked for.
pub open spec fn is_wanted(wanted: Wanted, attr: AttrModel) -> bool {
    match wanted {
        Wanted::Only(r) => role(attr.name@) == r,
        Wanted::AnyExport => !(role(attr.name@) is Other),
        Wanted::Named(marker) => attr.name@ == marker_name(marker),
    }
}

/// The first attribute from `from` on that is looked for.
pub open spec fn first_wanted(attrs: Seq<AttrModel>, wanted: Wanted, from: int) -> Option<int>
    decreases attrs.len() - from,
{
    if from < 0 || from >= attrs.len() {
        None
    } else if is_wanted(wanted, attrs[from]) {
        Some(from)
    } else {
        first_wanted(attrs, wanted, from + 1)
    }
}

fn find_wanted(attrs: &Vec<AttrModel>, wanted: Wanted, from: usize) -> (r: Option<usize>)
    requires
        from <= attrs@.len(),
    ensures
        match first_wanted(attrs@, wanted, from as int) {
            Some(i) => r is Some && r->Some_0 == i && from <= i < attrs@.len(),
            None => r is None,
        },
        r is Some ==> r->Some_0 < usize::MAX,
{
    let mut i: usize = from;
    while i < attrs.len()
        invariant
            from <= i <= attrs@.len(),
            first_wanted(attrs@, wanted, from as int) == first_wanted(attrs@, wanted, i as int),
        decreases attrs@.len() - i,
    {
        let found: AttrRole = attr_role(attrs[i].name.as_str());
        let hit: bool = match wanted {
            Wanted::Only(r) => found == r,
            Wanted::AnyExport => found != AttrRole::Other,
            Wanted::Named(marker) => same(attrs[i].name.as_str(), marker_text(marker)),
        };
        if hit {
            return Some(i);
        }
        i = i + 1;
    }
    None
}

/// Whether `name` is among the attributes.
pub open spec fn has_attr(attrs: Seq<AttrModel>, name: Seq<char>) -> bool {
    exists|i: int| 0 <= i < attrs.len() && (#[trigger] attrs[i]).name@ == name
}

/// Whether an attribute of this name is there to be removed.
pub fn strip_named_attr(attrs: &Vec<AttrModel>, name: &str) -> (r: bool)
    ensures
        r == has_attr(attrs@, name@),
{
    let mut i: usize = 0;
    while i < attrs.len()
        invariant
            i <= attrs@.len(),
            forall|j: int| 0 <= j < i ==> (#[trigger] attrs@[j]).name@ != name@,
        decreases attrs@.len() - i,
    {
        if same(attrs[i].name.as_str(), name) {
            return true;
        }
        i = i + 1;
    }
    false
}

/// The last value under a key.
pub open spec fn last_value(entries: Seq<(String, String)>, key: Seq<char>) -> Option<String>
    decreases entries.len(),
{
    if entries.len() == 0 {
        None
    } else if entries.last().0@ == key {
        Some(entries.last().1)
    } else {
        last_value(entries.drop_last(), key)
    }
}

/// Whether every key is one of two.
pub open spec fn keys_within(entries: Seq<(String, String)>, a: Seq<char>, b: Seq<char>) -> bool {
    forall|i: int| 0 <= i < entries.len() ==> (#[trigger] entries[i]).0@ == a || entries[i].0@ == b
}

/// The arguments of a function attribute.
#[derive(Debug)]
pub struct FunctionAttr {
    pub name: Option<String>,
}

/// The arguments of a method attribute.
#[derive(Debug)]
pub struct MethodAttr {
    pub name: Option<String>,
    pub handle: Option<String>,
}

/// The arguments of a function attribute, or what is wrong with them.
pub open spec fn function_attr(attr: AttrModel) -> Result<FunctionAttr, Seq<char>> {
    if !keys_within(attr.entries@, "name"@, "name"@) {
        Err("unsupported #[function(...)] argument"@)
    } else if attr.parse_error is Some {
        Err(attr.parse_error->Some_0@)
    } else {
        Ok(FunctionAttr { name: last_value(attr.entries@, "name"@) })
    }
}

/// The arguments of a method attribute, or what is wrong with them.
pub open spec fn method_attr(attr: AttrModel) -> Result<MethodAttr, Seq<char>> {
    if !keys_within(attr.entries@, "name"@, "handle"@) {
        Err("unsupported #[method(...)] argument"@)
    } else if attr.parse_error is Some {
        Err(attr.parse_error->Some_0@)
    } else {
        Ok(
            MethodAttr {
                name: last_value(attr.entries@, "name"@),
                handle: last_value(attr.entries@, "handle"@),
            },
        )
    }
}

fn check_keys(entries: &Vec<(String, String)>, a: &str, b: &str) -> (r: bool)
    ensures
        r == keys_within(entries@, a@, b@),
{
    let mut i: usize = 0;
    while i < entries.len()
        invariant
            i <= entries@.len(),
            forall|j: int| 0 <= j < i ==> (#[trigger] entries@[j]).0@ == a@ || entries@[j].0@ == b@,
        decreases entries@.len() - i,
    {
        if !same(entries[i].0.as_str(), a) && !same(entries[i].0.as_str(), b) {
            return false;
        }
        i = i + 1;
    }
    true
}

fn find_last(entries: &Vec<(String, String)>, key: &str) -> (r: Option<String>)
    ensures
        r == last_value(entries@, key@),
{
    let mut found: Option<String> = None;
    let mut i: usize = 0;
    proof {
        assert(entries@.take(0).len() == 0);
    }
    while i < entries.len()
        invariant
            i <= entries@.len(),
            found == last_value(entries@.take(i as int), key@),
        decreases entries@.len() - i,
    {
        proof {
            assert(entries@.take(i + 1).drop_last() =~= entries@.take(i as int));
            assert(entries@.take(i + 1).last() == entries@[i as int]);
        }
        if same(entries[i].0.as_str(), key) {
            found = Some(entries[i].1.clone());
        }
        i = i + 1;
    }
    proof {
        assert(entries@.take(entries@.len() as int) =~= entries@);
    }
    found
}

/// Reads the arguments of a function attribute.
pub fn parse_function_attr(attr: &AttrModel) -> (r: Result<FunctionAttr, String>)
    ensures
        match function_attr(*attr) {
            Ok(f) => r == Ok::<FunctionAttr, String>(f),
            Err(message) => r is Err && r->Err_0@ == message,
        },
{
    if !check_keys(&attr.entries, "name", "name") {
        return Err("unsupported #[function(...)] argument".to_owned());
    }
    if let Some(err) = &attr.parse_error {
        return Err(err.clone());
    }
    Ok(FunctionAttr { name: find_last(&attr.entries, "name") })
}

/// Reads the arguments of a method attribute.
pub fn parse_method_attr(attr: &AttrModel) -> (r: Result<MethodAttr, String>)
    ensures
        match method_attr(*attr) {
            Ok(m) => r == Ok::<MethodAttr, String>(m),
            Err(message) => r is Err && r->Err_0@ == message,
        },
{
    if !check_keys(&attr.entries, "name", "handle") {
        return Err("unsupported #[method(...)] argument".to_owned());
    }
    if let Some(err) = &attr.parse_error {
        return Err(err.clone());
    }
    Ok(MethodAttr { name: find_last(&attr.entries, "name"), handle: find_last(&attr.entries, "handle") })
}

/// How an item of an impl block is exported.
#[derive(Debug)]
pub enum ExportKind {
    Function(FunctionAttr),
    Method(MethodAttr),
    Shutdown,
}

/// How an export attribute says its item is exported.
pub open spec fn export_kind(attr: AttrModel) -> Result<ExportKind, Seq<char>> {
    match role(attr.name@) {
        AttrRole::Function => match function_attr(attr) {
            Ok(f) => Ok(ExportKind::Function(f)),
            Err(message) => Err(message),
        },
        AttrRole::Method => match method_attr(attr) {
            Ok(m) => Ok(ExportKind::Method(m)),
            Err(message) => Err(message),
        },
        _ => if attr.valueless { Ok(ExportKind::Shutdown) } else { Err("#[shutdown] does not accept arguments"@) },
    }
}

/// How the attributes of an item say it is exported: at most one may.
pub open spec fn exported_as(attrs: Seq<AttrModel>) -> Result<Option<ExportKind>, Seq<char>> {
    match first_wanted(attrs, Wanted::AnyExport, 0) {
        None => Ok(None),
        Some(i) => match export_kind(attrs[i]) {
            Err(message) => Err(message),
            Ok(kind) => if first_wanted(attrs, Wanted::AnyExport, i + 1) is Some {
                Err("multiple export attributes on the same method are not supported"@)
            } else {
                Ok(Some(kind))
            },
        },
    }
}

/// Finds how the attributes of an item say it is exported.
pub fn extract_export_kind(attrs: &Vec<AttrModel>) -> (r: Result<Option<ExportKind>, String>)
    ensures
        match exported_as(attrs@) {
            Ok(kind) => r == Ok::<Option<ExportKind>, String>(kind),
            Err(message) => r is Err && r->Err_0@ == message,
        },
{
    match find_wanted(attrs, Wanted::AnyExport, 0) {
        None => Ok(None),
        Some(i) => {
            let attr: &AttrModel = &attrs[i];
            let kind: ExportKind = match attr_role(attr.name.as_str()) {
                AttrRole::Function => match parse_function_attr(attr) {
                    Ok(f) => ExportKind::Function(f),
                    Err(message) => return Err(message),
                },
                AttrRole::Method => match parse_method_attr(attr) {
                    Ok(m) => ExportKind::Method(m),
                    Err(message) => return Err(message),
                },
                _ => {
                    if !attr.valueless {
                        return Err("#[shutdown] does not accept arguments".to_owned());
                    }
                    ExportKind::Shutdown
                },
            };
            if find_wanted(attrs, Wanted::AnyExport, i + 1).is_some() {
                return Err("multiple export attributes on the same method are not supported".to_owned());
            }
            Ok(Some(kind))
        },
    }
}

/// The function attribute of a module item; at most one is allowed.
pub open spec fn function_export_attr(attrs: Seq<AttrModel>) -> Result<Option<FunctionAttr>, Seq<char>> {
    match first_wanted(attrs, Wanted::Only(AttrRole::Function), 0) {
        None => Ok(None),
        Some(i) => match function_attr(attrs[i]) {
            Err(message) => Err(message),
            Ok(f) => if first_wanted(attrs, Wanted::Only(AttrRole::Function), i + 1) is Some {
                Err("duplicate function export attribute"@)
            } else {
                Ok(Some(f))
            },
        },
    }
}

/// Takes the function attribute of a module item.
pub fn take_function_export_attr(attrs: &Vec<AttrModel>) -> (r: Result<Option<FunctionAttr>, String>)
    ensures
        match function_export_attr(attrs@) {
            Ok(f) => r == Ok::<Option<FunctionAttr>, String>(f),
            Err(message) => r is Err && r->Err_0@ == message,
        },
{
    match find_wanted(attrs, Wanted::Only(AttrRole::Function), 0) {
        None => Ok(None),
        Some(i) => match parse_function_attr(&attrs[i]) {
            Err(message) => Err(message),
            Ok(f) => {
                if find_wanted(attrs, Wanted::Only(AttrRole::Function), i + 1).is_some() {
                    Err("duplicate function export attribute".to_owned())
                } else {
                    Ok(Some(f))
                }
            },
        },
    }
}

/// Whether a module item is the shutdown function; at most one attribute may
/// say so, and without arguments.
pub open spec fn shutdown_attr(attrs: Seq<AttrModel>) -> Result<bool, Seq<char>> {
    match first_wanted(attrs, Wanted::Only(AttrRole::Shutdown), 0) {
        None => Ok(false),
        Some(i) => if !attrs[i].valueless {
            Err("#[monty_shutdown] does not accept arguments"@)
        } else if first_wanted(attrs, Wanted::Only(AttrRole::Shutdown), i + 1) is Some {
            Err("duplicate shutdown attribute"@)
        } else {
            Ok(true)
        },
    }
}

/// Finds out whether a module item is the shutdown function.
pub fn take_shutdown_export_attr(attrs: &Vec<AttrModel>) -> (r: Result<bool, String>)
    ensures
        match shutdown_attr(attrs@) {
            Ok(found) => r == Ok::<bool, String>(found),
            Err(message) => r is Err && r->Err_0@ == message,
        },
{
    match find_wanted(attrs, Wanted::Only(AttrRole::Shutdown), 0) {
        None => Ok(false),
        Some(i) => {
            if !attrs[i].valueless {
                Err("#[monty_shutdown] does not accept arguments".to_owned())
            } else if find_wanted(attrs, Wanted::Only(AttrRole::Shutdown), i + 1).is_some() {
                Err("duplicate shutdown attribute".to_owned())
            } else {
                Ok(true)
            }
        },
    }
}

/// The name that a method attribute gives to a method; at most one is allowed.
pub open spec fn method_name(attrs: Seq<AttrModel>) -> Result<Option<String>, Seq<char>> {
    match first_wanted(attrs, Wanted::Only(AttrRole::Method), 0) {
        None => Ok(None),
        Some(i) => match method_attr(attrs[i]) {
            Err(message) => Err(message),
            Ok(m) => if first_wanted(attrs, Wanted::Only(AttrRole::Method), i + 1) is Some {
                Err("duplicate method attribute"@)
            } else {
                Ok(m.name)
            },
        },
    }
}

/// Takes the name that a method attribute gives to a method.
pub fn take_method_name_override(attrs: &Vec<AttrModel>) -> (r: Result<Option<String>, String>)
    ensures
        match method_name(attrs@) {
            Ok(name) => r == Ok::<Option<String>, String>(name),
            Err(message) => r is Err && r->Err_0@ == message,
        },
{
    match find_wanted(attrs, Wanted::Only(AttrRole::Method), 0) {
        None => Ok(None),
        Some(i) => match parse_method_attr(&attrs[i]) {
            Err(message) => Err(message),
            Ok(m) => {
                if find_wanted(attrs, Wanted::Only(AttrRole::Method), i + 1).is_some() {
                    Err("duplicate method attribute".to_owned())
                } else {
                    Ok(m.name)
                }
            },
        },
    }
}

/// The attributes that stay on an item, by their indices: all but those that
/// were looked for.
pub open spec fn retained(attrs: Seq<AttrModel>, wanted: Wanted) -> Seq<int>
    decreases attrs.len(),
{
    if attrs.len() == 0 {
        Seq::empty()
    } else {
        let front = retained(attrs.drop_last(), wanted);
        if is_wanted(wanted, attrs.last()) { front } else { front.push(attrs.len() - 1) }
    }
}

/// Finds which attributes stay on an item once those that were looked for have
/// been taken.
pub fn retained_attrs(attrs: &Vec<AttrModel>, wanted: Wanted) -> (r: Vec<usize>)
    ensures
        r@.map_values(|i: usize| i as int) == retained(attrs@, wanted),
{
    let mut out: Vec<usize> = Vec::new();
    let mut i: usize = 0;
    proof {
        assert(attrs@.take(0).len() == 0);
        assert(out@.map_values(|i: usize| i as int) =~= retained(attrs@.take(0), wanted));
    }
    while i < attrs.len()
        invariant
            i <= attrs@.len(),
            out@.map_values(|i: usize| i as int) == retained(attrs@.take(i as int), wanted),
        decreases attrs@.len() - i,
    {
        proof {
            assert(attrs@.take(i + 1).drop_last() =~= attrs@.take(i as int));
            assert(attrs@.take(i + 1).last() == attrs@[i as int]);
        }
        let found: AttrRole = attr_role(attrs[i].name.as_str());
        let taken: bool = match wanted {
            Wanted::Only(r) => found == r,
            Wanted::AnyExport => found != AttrRole::Other,
            Wanted::Named(marker) => same(attrs[i].name.as_str(), marker_text(marker)),
        };
        let ghost before = out@;
        if !taken {
            out.push(i);
            proof {
                assert(out@.map_values(|i: usize| i as int) =~= before.map_values(|i: usize| i as int).push(i as int));
            }
        }
        i = i + 1;
    }
    proof {
        assert(attrs@.take(attrs@.len() as int) =~= attrs@);
    }
    out
}

/// Where the keys of a module attribute stand; the last of equal keys counts.
#[derive(Clone, Copy, Debug, PartialEq, Eq, Structural)]
pub struct ExtensionKeys {
    pub name: usize,
    pub version: usize,
    pub skill: usize,
    pub stubs: Option<usize>,
}

/// The last index of a key.
pub open spec fn last_key(keys: Seq<String>, key: Seq<char>) -> Option<int>
    decreases keys.len(),
{
    if keys.len() == 0 {
        None
    } else if keys.last()@ == key {
        Some(keys.len() - 1)
    } else {
        last_key(keys.drop_last(), key)
    }
}

fn find_last_key(keys: &Vec<String>, key: &str) -> (r: Option<usize>)
    ensures
        match last_key(keys@, key@) {
            Some(i) => r is Some && r->Some_0 == i && 0 <= i < keys@.len(),
            None => r is None,
        },
{
    let mut found: Option<usize> = None;
    let mut i: usize = 0;
    proof {
        assert(keys@.take(0).len() == 0);
    }
    while i < keys.len()
        invariant
            i <= keys@.len(),
            match last_key(keys@.take(i as int), key@) {
                Some(k) => found is Some && found->Some_0 == k && 0 <= k < i,
                None => found is None,
            },
        decreases keys@.len() - i,
    {
        proof {
            assert(keys@.take(i + 1).drop_last() =~= keys@.take(i as int));
            assert(keys@.take(i + 1).last() == keys@[i as int]);
        }
        if same(keys[i].as_str(), key) {
            found = Some(i);
        }
        i = i + 1;
    }
    proof {
        assert(keys@.take(keys@.len() as int) =~= keys@);
    }
    found
}

/// Whether a key may stand in a module attribute.
pub open spec fn extension_key(key: Seq<char>) -> bool {
    key == "name"@ || key == "version"@ || key == "skill"@ || key == "stubs"@
}

/// Finds the keys of a module attribute: all but the stubs are needed.
pub fn parse_extension_attr(keys: &Vec<String>) -> (r: Result<ExtensionKeys, String>)
    ensures
        ({
            let known = forall|i: int| 0 <= i < keys@.len() ==> extension_key((#[trigger] keys@[i])@);
            let name = last_key(keys@, "name"@);
            let version = last_key(keys@, "version"@);
            let skill = last_key(keys@, "skill"@);
            let stubs = last_key(keys@, "stubs"@);
            &&& !known ==> r is Err && r->Err_0@ == "unsupported monty_extension argument"@
            &&& known && name is None ==> r is Err && r->Err_0@ == "missing `name = \"module\"` argument"@
            &&& known && name is Some && version is None ==> r is Err && r->Err_0@
                == "missing `version = \"x.y.z\"` argument"@
            &&& known && name is Some && version is Some && skill is None ==> r is Err && r->Err_0@
                == "missing `skill = EXPR` argument"@
            &&& known && name is Some && version is Some && skill is Some ==> r == Ok::<ExtensionKeys, String>(
                ExtensionKeys {
                    name: name->Some_0 as usize,
                    version: version->Some_0 as usize,
                    skill: skill->Some_0 as usize,
                    stubs: match stubs {
                        Some(i) => Some(i as usize),
                        None => None,
                    },
                },
            )
        }),
{
    let mut i: usize = 0;
    while i < keys.len()
        invariant
            i <= keys@.len(),
            forall|j: int| 0 <= j < i ==> extension_key((#[trigger] keys@[j])@),
        decreases keys@.len() - i,
    {
        let key: &str = keys[i].as_str();
        if !same(key, "name") && !same(key, "version") && !same(key, "skill") && !same(key, "stubs") {
            proof {
                assert(!extension_key(keys@[i as int]@));
            }
            return Err("unsupported monty_extension argument".to_owned());
        }
        i = i + 1;
    }
    let name: usize = match find_last_key(keys, "name") {
        Some(k) => k,
        None => return Err("missing `name = \"module\"` argument".to_owned()),
    };
    let version: usize = match find_last_key(keys, "version") {
        Some(k) => k,
        None => return Err("missing `version = \"x.y.z\"` argument".to_owned()),
    };
    let skill: usize = match find_last_key(keys, "skill") {
        Some(k) => k,
        None => return Err("missing `skill = EXPR` argument".to_owned()),
    };
    Ok(ExtensionKeys { name, version, skill, stubs: find_last_key(keys, "stubs") })
}

/// Finds the keys of a handles attribute: the extension and the module.
pub fn parse_handles_attr(keys: &Vec<String>) -> (r: Result<(usize, usize), String>)
    ensures
        ({
            let known = forall|i: int|
                0 <= i < keys@.len() ==> (#[trigger] keys@[i])@ == "extension"@ || keys@[i]@ == "module"@;
            let extension = last_key(keys@, "extension"@);
            let module = last_key(keys@, "module"@);
            &&& !known ==> r is Err && r->Err_0@ == "unsupported monty_handles argument"@
            &&& known && extension is None ==> r is Err && r->Err_0@ == "missing `extension = TypeName` argument"@
            &&& known && extension is Some && module is None ==> r is Err && r->Err_0@
                == "missing `module = \"name\"` argument"@
            &&& known && extension is Some && module is Some ==> r == Ok::<(usize, usize), String>(
                (extension->Some_0 as usize, module->Some_0 as usize),
            )
        }),
{
    let mut i: usize = 0;
    while i < keys.len()
        invariant
            i <= keys@.len(),
            forall|j: int| 0 <= j < i ==> (#[trigger] keys@[j])@ == "extension"@ || keys@[j]@ == "module"@,
        decreases keys@.len() - i,
    {
        if !same(keys[i].as_str(), "extension") && !same(keys[i].as_str(), "module") {
            return Err("unsupported monty_handles argument".to_owned());
        }
        i = i + 1;
    }
    let extension: usize = match find_last_key(keys, "extension") {
        Some(k) => k,
        None => return Err("missing `extension = TypeName` argument".to_owned()),
    };
    match find_last_key(keys, "module") {
        Some(module) => Ok((extension, module)),
        None => Err("missing `module = \"name\"` argument".to_owned()),
    }
}

// ---------------------------------------------------------------------------
// Signatures
// ---------------------------------------------------------------------------

/// The `self` parameter of a function.
#[derive(Clone, Copy, Debug, PartialEq, Eq, Structural)]
pub enum ReceiverShape {
    Absent,
    /// `&self`
    SharedRef,
    Other,
}

/// What matters about the signature of a function.
pub struct SigModel {
    pub name: String,
    pub is_async: bool,
    pub is_generic: bool,
    pub receiver: ReceiverShape,
    /// Whether there are parameters at all, the first included.
    pub has_inputs: bool,
    /// The parameters behind the first.
    pub params: Vec<Param>,
}

/// What is wrong with the signature of an exported method of an impl block.
pub open spec fn method_sig_error(sig: SigModel) -> Option<Seq<char>> {
    if sig.is_async {
        Some("async extension exports are not supported"@)
    } else if sig.is_generic {
        Some("generic extension exports are not supported"@)
    } else if !(sig.receiver is SharedRef) {
        Some("exported extension methods must take &self"@)
    } else {
        None
    }
}

/// What is wrong with the signature of an exported function of a module.
pub open spec fn mod_sig_error(sig: SigModel) -> Option<Seq<char>> {
    if sig.is_async {
        Some("async extension functions are not supported"@)
    } else if sig.is_generic {
        Some("generic extension functions are not supported"@)
    } else if !(sig.receiver is Absent) {
        Some("module-level functions should take `ext: &Extension`, not `&self`"@)
    } else if !sig.has_inputs {
        Some("module-level functions must take `ext: &Extension` as the first parameter"@)
    } else {
        None
    }
}

/// Validates the signature of an exported method of an impl block.
pub fn validate_method_signature(sig: &SigModel) -> (r: Result<(), String>)
    ensures
        match method_sig_error(*sig) {
            None => r is Ok,
            Some(message) => r is Err && r->Err_0@ == message,
        },
{
    if sig.is_async {
        return Err("async extension exports are not supported".to_owned());
    }
    if sig.is_generic {
        return Err("generic extension exports are not supported".to_owned());
    }
    match sig.receiver {
        ReceiverShape::SharedRef => Ok(()),
        _ => Err("exported extension methods must take &self".to_owned()),
    }
}

/// Validates the signature of an exported function of a module.
pub fn validate_mod_function_sig(sig: &SigModel) -> (r: Result<(), String>)
    ensures
        match mod_sig_error(*sig) {
            None => r is Ok,
            Some(message) => r is Err && r->Err_0@ == message,
        },
{
    if sig.is_async {
        return Err("async extension functions are not supported".to_owned());
    }
    if sig.is_generic {
        return Err("generic extension functions are not supported".to_owned());
    }
    match sig.receiver {
        ReceiverShape::Absent => {},
        _ => return Err("module-level functions should take `ext: &Extension`, not `&self`".to_owned()),
    }
    if !sig.has_inputs {
        return Err("module-level functions must take `ext: &Extension` as the first parameter".to_owned());
    }
    Ok(())
}

/// Rejects an impl of a trait as an extension.
pub fn validate_extension_impl(is_trait_impl: bool) -> (r: Result<(), String>)
    ensures
        r is Ok <==> !is_trait_impl,
        r is Err ==> r->Err_0@ == "#[monty_extension] only supports inherent impl blocks"@,
{
    if is_trait_impl {
        Err("#[monty_extension] only supports inherent impl blocks".to_owned())
    } else {
        Ok(())
    }
}

/// Rejects a variant of a handles enum that does not hold exactly one unnamed
/// field; `fields` counts unnamed fields, where the variant has such.
pub fn extract_variant_type(fields: Option<usize>) -> (r: Result<(), String>)
    ensures
        r is Ok <==> fields == Some(1usize),
        fields is None ==> r->Err_0@ == "#[monty_handles] variants must be tuple variants with exactly one field"@,
        fields is Some && fields->Some_0 != 1 ==> r->Err_0@
            == "#[monty_handles] variants must contain exactly one field"@,
{
    match fields {
        None => Err("#[monty_handles] variants must be tuple variants with exactly one field".to_owned()),
        Some(n) => {
            if n == 1 {
                Ok(())
            } else {
                Err("#[monty_handles] variants must contain exactly one field".to_owned())
            }
        },
    }
}

/// A variant of an enum of stored objects.
pub struct VariantModel {
    pub name: String,
    /// How many unnamed fields it has, where it has such.
    pub fields: Option<usize>,
}

/// Whether a variant holds exactly one unnamed field.
pub open spec fn storable(v: VariantModel) -> bool {
    v.fields == Some(1usize)
}

/// What is said of a variant that cannot hold a stored object.
pub open spec fn variant_error(v: VariantModel) -> Seq<char> {
    if v.fields is None {
        "#[monty_handles] variants must be tuple variants with exactly one field"@
    } else {
        "#[monty_handles] variants must contain exactly one field"@
    }
}

/// Plans the handle of a variant of stored objects.
pub fn expand_handle_variant(variant: &VariantModel, module_name: &str) -> (r: Result<HandleNames, String>)
    ensures
        r is Ok <==> storable(*variant),
        r is Ok ==> names_class(r->Ok_0, variant.name@, module_name@),
        r is Err ==> r->Err_0@ == variant_error(*variant),
{
    match extract_variant_type(variant.fields) {
        Err(message) => Err(message),
        Ok(()) => Ok(handle_names(variant.name.as_str(), module_name)),
    }
}

/// The first variant, from `from` on, that cannot hold a stored object.
pub open spec fn first_unstorable(variants: Seq<VariantModel>, from: int) -> Option<int>
    decreases variants.len() - from,
{
    if from < 0 || from >= variants.len() {
        None
    } else if !storable(variants[from]) {
        Some(from)
    } else {
        first_unstorable(variants, from + 1)
    }
}

/// Plans the handles of an enum of stored objects.
pub fn expand_monty_handles(variants: &Vec<VariantModel>, module_name: &str) -> (r: Result<Vec<HandleNames>, String>)
    ensures
        match first_unstorable(variants@, 0) {
            Some(i) => r is Err && 0 <= i < variants@.len() && r->Err_0@ == variant_error(variants@[i]),
            None => {
                &&& r is Ok
                &&& r->Ok_0@.len() == variants@.len()
                &&& forall|i: int|
                    0 <= i < variants@.len() ==> names_class(
                        #[trigger] r->Ok_0@[i],
                        variants@[i].name@,
                        module_name@,
                    )
            },
        },
{
    let mut out: Vec<HandleNames> = Vec::new();
    let mut i: usize = 0;
    while i < variants.len()
        invariant
            i <= variants@.len(),
            out@.len() == i,
            first_unstorable(variants@, 0) == first_unstorable(variants@, i as int),
            forall|j: int| 0 <= j < i ==> names_class(#[trigger] out@[j], variants@[j].name@, module_name@),
        decreases variants@.len() - i,
    {
        match expand_handle_variant(&variants[i], module_name) {
            Err(message) => return Err(message),
            Ok(names) => out.push(names),
        }
        i = i + 1;
    }
    Ok(out)
}

/// Plans the handle of a class of a module.
pub fn generate_mod_handle_code(class: &str, module_name: &str) -> (r: HandleNames)
    ensures
        names_class(r, class@, module_name@),
{
    handle_names(class, module_name)
}

/// Finds the class that an impl block is for; `self_name` is the name of its
/// type, where that is a simple one.
pub fn extract_impl_self_ident(is_trait_impl: bool, self_name: &Option<String>) -> (r: Result<String, String>)
    ensures
        r is Ok <==> !is_trait_impl && self_name is Some,
        r is Ok ==> r->Ok_0 == self_name->Some_0,
        r is Err ==> r->Err_0@ == if is_trait_impl {
            "#[monty_methods] cannot be used on trait implementations"@
        } else {
            "expected a simple type name after `impl`"@
        },
{
    if is_trait_impl {
        return Err("#[monty_methods] cannot be used on trait implementations".to_owned());
    }
    match self_name {
        Some(name) => Ok(name.clone()),
        None => Err("expected a simple type name after `impl`".to_owned()),
    }
}

// ---------------------------------------------------------------------------
// Exports
// ---------------------------------------------------------------------------

/// Where the class of an exported method comes from. `N` is a text.
#[derive(Debug)]
pub enum HandleSource<N> {
    /// The attribute gives it.
    Explicit(N),
    /// It is that of the parameter at this index, whose type has this text.
    Inferred(usize, N),
}

/// An export. `N` is a text and `A` a list of argument plans.
#[derive(Debug)]
pub enum Export<N, A> {
    Class,
    Function { export_name: N, args: A },
    Method { export_name: N, handle: HandleSource<N>, args: A },
    Shutdown,
}

/// A text-free view of where a class comes from.
pub open spec fn source_view(h: HandleSource<String>) -> HandleSource<Seq<char>> {
    match h {
        HandleSource::Explicit(n) => HandleSource::Explicit(n@),
        HandleSource::Inferred(i, n) => HandleSource::Inferred(i, n@),
    }
}

/// An export over sequences.
pub type ExportView = Export<Seq<char>, Seq<ArgPlan>>;

/// An export over sequences.
pub open spec fn export_view(e: Export<String, Vec<ArgPlan>>) -> ExportView {
    match e {
        Export::Class => Export::Class,
        Export::Function { export_name, args } => Export::Function { export_name: export_name@, args: args@ },
        Export::Method { export_name, handle, args } => Export::Method {
            export_name: export_name@,
            handle: source_view(handle),
            args: args@,
        },
        Export::Shutdown => Export::Shutdown,
    }
}

/// The name under which an item is exported: an override, or its own.
pub open spec fn exported_name(override_: Option<String>, sig: SigModel) -> Seq<char> {
    match override_ {
        Some(name) => name@,
        None => sig.name@,
    }
}

fn choose_name(override_: Option<String>, sig: &SigModel) -> (r: String)
    ensures
        r@ == exported_name(override_, *sig),
{
    match override_ {
        Some(name) => name,
        None => sig.name.clone(),
    }
}

/// The export of a function of an impl block.
pub open spec fn function_export(sig: SigModel, attr: FunctionAttr) -> Result<ExportView, Seq<char>> {
    match method_sig_error(sig) {
        Some(message) => Err(message),
        None => match plan_args(sig.params@, CallMode::Function, ExportStyle::Impl, false, 0) {
            Err(message) => Err(message),
            Ok(args) => Ok(Export::Function { export_name: exported_name(attr.name, sig), args }),
        },
    }
}

/// Plans the export of a function of an impl block.
pub fn build_function_export(sig: &SigModel, attr: FunctionAttr) -> (r: Result<Export<String, Vec<ArgPlan>>, String>)
    ensures
        match function_export(*sig, attr) {
            Ok(e) => r is Ok && export_view(r->Ok_0) == e,
            Err(message) => r is Err && r->Err_0@ == message,
        },
{
    match validate_method_signature(sig) {
        Err(message) => return Err(message),
        Ok(()) => {},
    }
    let export_name: String = choose_name(attr.name, sig);
    match build_dispatch_body(&sig.params, CallMode::Function) {
        Err(message) => Err(message),
        Ok(args) => Ok(Export::Function { export_name, args }),
    }
}

/// The first ordinary parameter that is neither the context nor the raw
/// arguments, from `from` on.
pub open spec fn handle_param(params: Seq<Param>, from: int) -> Option<int>
    decreases params.len() - from,
{
    if from < 0 || from >= params.len() {
        None
    } else if params[from].typed && !params[from].ty.context() && !params[from].ty.raw_args() {
        Some(from)
    } else {
        handle_param(params, from + 1)
    }
}

/// Finds the parameter that gets the handle of a method.
pub fn find_handle_argument(params: &Vec<Param>) -> (r: Result<usize, String>)
    ensures
        match handle_param(params@, 0) {
            Some(i) => r is Ok && r->Ok_0 == i && 0 <= i < params@.len(),
            None => r is Err && r->Err_0@ == no_handle_message(ExportStyle::Impl),
        },
{
    let mut i: usize = 0;
    while i < params.len()
        invariant
            i <= params@.len(),
            handle_param(params@, 0) == handle_param(params@, i as int),
        decreases params@.len() - i,
    {
        if params[i].typed && !params[i].ty.is_ext_context() && !params[i].ty.is_ext_args() {
            return Ok(i);
        }
        i = i + 1;
    }
    Err("#[method] exports must take a handle parameter after &self".to_owned())
}

/// The export of a method of an impl block.
pub open spec fn method_export(sig: SigModel, attr: MethodAttr) -> Result<ExportView, Seq<char>> {
    match method_sig_error(sig) {
        Some(message) => Err(message),
        None => match handle_param(sig.params@, 0) {
            None => Err(no_handle_message(ExportStyle::Impl)),
            Some(i) => if attr.handle is None && !sig.params@[i].ty.tells_class() {
                Err(
                    "#[method] needs `handle = \"module.Type\"` when the handle parameter is `ExtHandle`, `&ExtHandle`, or a reference type"@,
                )
            } else {
                match plan_args(sig.params@, CallMode::Method, ExportStyle::Impl, false, 0) {
                    Err(message) => Err(message),
                    Ok(args) => Ok(
                        Export::Method {
                            export_name: exported_name(attr.name, sig),
                            handle: match attr.handle {
                                Some(handle) => HandleSource::Explicit(handle@),
                                None => HandleSource::Inferred(i as usize, sig.params@[i].ty_text@),
                            },
                            args,
                        },
                    ),
                }
            },
        },
    }
}

/// Plans the export of a method of an impl block. Its class is the one that
/// the attribute gives, or that of a typed handle.
pub fn build_method_export(sig: &SigModel, attr: MethodAttr) -> (r: Result<Export<String, Vec<ArgPlan>>, String>)
    ensures
        match method_export(*sig, attr) {
            Ok(e) => r is Ok && export_view(r->Ok_0) == e,
            Err(message) => r is Err && r->Err_0@ == message,
        },
{
    match validate_method_signature(sig) {
        Err(message) => return Err(message),
        Ok(()) => {},
    }
    let export_name: String = choose_name(attr.name, sig);
    let at: usize = match find_handle_argument(&sig.params) {
        Err(message) => return Err(message),
        Ok(at) => at,
    };
    if attr.handle.is_none() && !sig.params[at].ty.can_infer_handle_type() {
        return Err(
            "#[method] needs `handle = \"module.Type\"` when the handle parameter is `ExtHandle`, `&ExtHandle`, or a reference type".to_owned(),
        );
    }
    let handle: HandleSource<String> = match attr.handle {
        Some(handle) => HandleSource::Explicit(handle),
        None => HandleSource::Inferred(at, sig.params[at].ty_text.clone()),
    };
    match build_dispatch_body(&sig.params, CallMode::Method) {
        Err(message) => Err(message),
        Ok(args) => Ok(Export::Method { export_name, handle, args }),
    }
}

// ---------------------------------------------------------------------------
// Impl blocks
// ---------------------------------------------------------------------------

/// An item of an impl block.
pub enum ImplItemModel {
    Fn { attrs: Vec<AttrModel>, sig: SigModel },
    Other,
}

/// The export of an item of an impl block, if it is one.
pub open spec fn item_export(item: ImplItemModel) -> Result<Option<ExportView>, Seq<char>> {
    match item {
        ImplItemModel::Other => Ok(None),
        ImplItemModel::Fn { attrs, sig } => match exported_as(attrs@) {
            Err(message) => Err(message),
            Ok(None) => Ok(None),
            Ok(Some(ExportKind::Shutdown)) => Ok(Some(Export::Shutdown)),
            Ok(Some(ExportKind::Function(attr))) => match function_export(sig, attr) {
                Ok(e) => Ok(Some(e)),
                Err(message) => Err(message),
            },
            Ok(Some(ExportKind::Method(attr))) => match method_export(sig, attr) {
                Ok(e) => Ok(Some(e)),
                Err(message) => Err(message),
            },
        },
    }
}

/// The exports of the items from `at` on, each with its item's index, or the
/// first thing wrong with them. Only one item may be the shutdown method.
pub open spec fn impl_exports(items: Seq<ImplItemModel>, at: int, shutdown: bool) -> Result<
    Seq<(int, ExportView)>,
    Seq<char>,
>
    decreases items.len() - at,
{
    if at < 0 || at >= items.len() {
        Ok(Seq::empty())
    } else {
        match item_export(items[at]) {
            Err(message) => Err(message),
            Ok(None) => impl_exports(items, at + 1, shutdown),
            Ok(Some(e)) => if e is Shutdown && shutdown {
                Err("only one #[shutdown] method is allowed"@)
            } else {
                match impl_exports(items, at + 1, shutdown || e is Shutdown) {
                    Err(message) => Err(message),
                    Ok(rest) => Ok(seq![(at, e)] + rest),
                }
            },
        }
    }
}

/// Exports with their items' indices.
pub open spec fn exports_view(exports: Seq<(usize, Export<String, Vec<ArgPlan>>)>) -> Seq<(int, ExportView)> {
    exports.map_values(|e: (usize, Export<String, Vec<ArgPlan>>)| (e.0 as int, export_view(e.1)))
}

/// A result with some exports in front.
pub open spec fn exports_behind(front: Seq<(int, ExportView)>, rest: Result<Seq<(int, ExportView)>, Seq<char>>) -> Result<
    Seq<(int, ExportView)>,
    Seq<char>,
> {
    match rest {
        Err(message) => Err(message),
        Ok(rest) => Ok(front + rest),
    }
}

fn plan_item(item: &ImplItemModel) -> (r: Result<Option<Export<String, Vec<ArgPlan>>>, String>)
    ensures
        match item_export(*item) {
            Ok(Some(e)) => r is Ok && r->Ok_0 is Some && export_view(r->Ok_0->Some_0) == e,
            Ok(None) => r is Ok && r->Ok_0 is None,
            Err(message) => r is Err && r->Err_0@ == message,
        },
{
    match item {
        ImplItemModel::Other => Ok(None),
        ImplItemModel::Fn { attrs, sig } => match extract_export_kind(attrs) {
            Err(message) => Err(message),
            Ok(None) => Ok(None),
            Ok(Some(ExportKind::Shutdown)) => Ok(Some(Export::Shutdown)),
            Ok(Some(ExportKind::Function(attr))) => match build_function_export(sig, attr) {
                Ok(e) => Ok(Some(e)),
                Err(message) => Err(message),
            },
            Ok(Some(ExportKind::Method(attr))) => match build_method_export(sig, attr) {
                Ok(e) => Ok(Some(e)),
                Err(message) => Err(message),
            },
        },
    }
}

/// Plans the exports of an impl block.
pub fn expand_monty_extension(is_trait_impl: bool, items: &Vec<ImplItemModel>) -> (r: Result<
    Vec<(usize, Export<String, Vec<ArgPlan>>)>,
    String,
>)
    ensures
        is_trait_impl ==> r is Err && r->Err_0@ == "#[monty_extension] only supports inherent impl blocks"@,
        !is_trait_impl ==> match impl_exports(items@, 0, false) {
            Ok(exports) => r is Ok && exports_view(r->Ok_0@) == exports,
            Err(message) => r is Err && r->Err_0@ == message,
        },
{
    match validate_extension_impl(is_trait_impl) {
        Err(message) => return Err(message),
        Ok(()) => {},
    }
    let mut out: Vec<(usize, Export<String, Vec<ArgPlan>>)> = Vec::new();
    let mut shutdown: bool = false;
    let mut i: usize = 0;
    proof {
        match impl_exports(items@, 0, false) {
            Ok(rest) => assert(exports_view(out@) + rest =~= rest),
            Err(_) => {},
        }
    }
    while i < items.len()
        invariant
            i <= items@.len(),
            !is_trait_impl,
            impl_exports(items@, 0, false) == exports_behind(
                exports_view(out@),
                impl_exports(items@, i as int, shutdown),
            ),
        decreases items@.len() - i,
    {
        match plan_item(&items[i]) {
            Err(message) => return Err(message),
            Ok(None) => {},
            Ok(Some(e)) => {
                let ghost front = exports_view(out@);
                let ghost ev = export_view(e);
                if let Export::Shutdown = &e {
                    if shutdown {
                        return Err("only one #[shutdown] method is allowed".to_owned());
                    }
                    shutdown = true;
                }
                out.push((i, e));
                proof {
                    assert(exports_view(out@) =~= front.push((i as int, ev)));
                    match impl_exports(items@, i + 1, shutdown) {
                        Ok(rest) => assert(front + (seq![(i as int, ev)] + rest) =~= exports_view(out@) + rest),
                        Err(_) => {},
                    }
                }
            },
        }
        i = i + 1;
    }
    proof {
        assert(exports_view(out@) + Seq::<(int, ExportView)>::empty() =~= exports_view(out@));
    }
    Ok(out)
}

/// Whether some export is that of the item at `i`.
pub open spec fn exports_item(exports: Seq<(int, ExportView)>, i: int) -> bool {
    exists|k: int| 0 <= k < exports.len() && (#[trigger] exports[k]).0 == i
}

/// The exports of an impl block follow its items: every marked item is
/// exported as its attributes say, nothing else is, the order is that of the
/// source, and at most one item is the shutdown method.
pub proof fn law_exports_follow_items(items: Seq<ImplItemModel>)
    requires
        impl_exports(items, 0, false) is Ok,
    ensures
        ({
            let exports = impl_exports(items, 0, false)->Ok_0;
            &&& forall|k: int|
                0 <= k < exports.len() ==> 0 <= (#[trigger] exports[k]).0 < items.len() && item_export(
                    items[exports[k].0],
                ) == Ok::<Option<ExportView>, Seq<char>>(Some(exports[k].1))
            &&& forall|k: int, l: int|
                0 <= k < l < exports.len() ==> (#[trigger] exports[k]).0 < (#[trigger] exports[l]).0
            &&& forall|i: int|
                0 <= i < items.len() ==> (#[trigger] item_export(items[i])) is Ok && (item_export(items[i])->Ok_0 is Some
                    <==> exports_item(exports, i))
            &&& forall|k: int, l: int|
                0 <= k < l < exports.len() && (#[trigger] exports[k]).1 is Shutdown ==> !((
                #[trigger] exports[l]).1 is Shutdown)
        }),
{
    lemma_impl_exports(items, 0, false);
}

proof fn lemma_impl_exports(items: Seq<ImplItemModel>, at: int, shutdown: bool)
    requires
        0 <= at <= items.len(),
        impl_exports(items, at, shutdown) is Ok,
    ensures
        ({
            let exports = impl_exports(items, at, shutdown)->Ok_0;
            &&& forall|k: int|
                0 <= k < exports.len() ==> at <= (#[trigger] exports[k]).0 < items.len() && item_export(
                    items[exports[k].0],
                ) == Ok::<Option<ExportView>, Seq<char>>(Some(exports[k].1))
            &&& forall|k: int, l: int|
                0 <= k < l < exports.len() ==> (#[trigger] exports[k]).0 < (#[trigger] exports[l]).0
            &&& forall|i: int|
                at <= i < items.len() ==> (#[trigger] item_export(items[i])) is Ok && (item_export(items[i])->Ok_0 is Some
                    <==> exports_item(exports, i))
            &&& forall|k: int, l: int|
                0 <= k < l < exports.len() && (#[trigger] exports[k]).1 is Shutdown ==> !((
                #[trigger] exports[l]).1 is Shutdown)
            &&& shutdown ==> forall|k: int| 0 <= k < exports.len() ==> !((#[trigger] exports[k]).1 is Shutdown)
        }),
    decreases items.len() - at,
{
    if at < items.len() {
        let exports = impl_exports(items, at, shutdown)->Ok_0;
        match item_export(items[at]) {
            Err(_) => {},
            Ok(None) => {
                lemma_impl_exports(items, at + 1, shutdown);
                assert(!exports_item(exports, at));
            },
            Ok(Some(e)) => {
                lemma_impl_exports(items, at + 1, shutdown || e is Shutdown);
                let rest = impl_exports(items, at + 1, shutdown || e is Shutdown)->Ok_0;
                assert(exports == seq![(at, e)] + rest);
                assert(exports[0] == (at, e));
                assert forall|k: int| 0 < k < exports.len() implies #[trigger] exports[k] == rest[k - 1] by {}
                assert forall|i: int| at < i < items.len() implies (exports_item(rest, i) <==> #[trigger] exports_item(
                    exports,
                    i,
                )) by {
                    if exports_item(rest, i) {
                        let k = choose|k: int| 0 <= k < rest.len() && (#[trigger] rest[k]).0 == i;
                        assert(exports[k + 1].0 == i);
                    }
                    if exports_item(exports, i) {
                        let k = choose|k: int| 0 <= k < exports.len() && (#[trigger] exports[k]).0 == i;
                        assert(rest[k - 1].0 == i);
                    }
                }
                assert forall|i: int| at <= i < items.len() implies (#[trigger] item_export(items[i])) is Ok && (
                item_export(items[i])->Ok_0 is Some <==> exports_item(exports, i)) by {
                    if i == at {
                        assert(exports[0].0 == at);
                    } else {
                        assert(exports_item(rest, i) <==> exports_item(exports, i));
                    }
                }
            },
        }
    }
}

/// The text by which methods of the same class are found: given and inferred
/// classes never coincide.
pub open spec fn class_key(h: HandleSource<Seq<char>>) -> Seq<char> {
    match h {
        HandleSource::Explicit(name) => "="@ + name,
        HandleSource::Inferred(_, ty) => "<"@ + ty,
    }
}

/// The classes of methods, in order.
pub open spec fn class_keys(handles: Seq<HandleSource<String>>) -> Seq<Seq<char>> {
    handles.map_values(|h: HandleSource<String>| class_key(source_view(h)))
}

/// Groups exported methods by the class of their handles.
pub fn collect_method_types(handles: &Vec<HandleSource<String>>) -> (r: (Vec<String>, Vec<Vec<usize>>))
    ensures
        crate::text::views(r.0@) == class_keys(handles@),
        groups_by_key(r.0@, r.1@, handles@.len() as int),
{
    let mut keys: Vec<String> = Vec::new();
    let mut i: usize = 0;
    proof {
        assert(crate::text::views(keys@) =~= class_keys(handles@.take(0)));
    }
    while i < handles.len()
        invariant
            i <= handles@.len(),
            crate::text::views(keys@) == class_keys(handles@.take(i as int)),
        decreases handles@.len() - i,
    {
        let key: String = match &handles[i] {
            HandleSource::Explicit(name) => cat2("=", name.as_str()),
            HandleSource::Inferred(_, ty) => cat2("<", ty.as_str()),
        };
        let ghost before = keys@;
        let ghost k = key@;
        keys.push(key);
        proof {
            assert(crate::text::views(keys@) =~= crate::text::views(before).push(k));
            assert(class_keys(handles@.take(i + 1)) =~= class_keys(handles@.take(i as int)).push(k));
        }
        i = i + 1;
    }
    proof {
        assert(handles@.take(handles@.len() as int) =~= handles@);
        assert(crate::text::views(keys@).len() == keys@.len());
    }
    let groups: Vec<Vec<usize>> = group_by_key(&keys);
    (keys, groups)
}

/// A class that is given and one that is inferred are different classes.
pub proof fn law_given_and_inferred_classes_differ(name: Seq<char>, at: usize, ty: Seq<char>)
    ensures
        class_key(HandleSource::Explicit(name)) != class_key(HandleSource::Inferred(at, ty)),
{
    reveal_strlit("=");
    reveal_strlit("<");
    assert(("="@ + name)[0] == '=');
    assert(("<"@ + ty)[0] == '<');
}

// ---------------------------------------------------------------------------
// Modules
// ---------------------------------------------------------------------------

/// A member of an impl block in a module.
pub enum MemberModel {
    Fn { attrs: Vec<AttrModel>, sig: SigModel },
    Other,
}

/// An item of a module.
pub enum ModItemModel {
    Struct { attrs: Vec<AttrModel> },
    Fn { attrs: Vec<AttrModel>, sig: SigModel },
    Impl { attrs: Vec<AttrModel>, is_trait_impl: bool, self_name: Option<String>, members: Vec<MemberModel> },
    Other,
}

/// An export of a module: its item, the member of it where that is an impl
/// block, and what is exported.
pub struct ModExport {
    pub item: usize,
    pub member: Option<usize>,
    pub export: Export<String, Vec<ArgPlan>>,
}

/// An export of a module over sequences.
pub ghost struct ModExportView {
    pub item: int,
    pub member: Option<int>,
    pub export: ExportView,
}

impl View for ModExport {
    type V = ModExportView;

    open spec fn view(&self) -> ModExportView {
        ModExportView {
            item: self.item as int,
            member: match self.member {
                Some(m) => Some(m as int),
                None => None,
            },
            export: export_view(self.export),
        }
    }
}

/// Exports of a module over sequences.
pub open spec fn mod_exports_view(exports: Seq<ModExport>) -> Seq<ModExportView> {
    exports.map_values(|e: ModExport| e@)
}

/// The full name of a class of a module.
pub open spec fn full_class(module: Seq<char>, class: Seq<char>) -> Seq<char> {
    module + "."@ + class
}

/// The export of a member of an impl block of methods for a class.
pub open spec fn member_export(member: MemberModel, class: Seq<char>) -> Result<Option<ExportView>, Seq<char>> {
    match member {
        MemberModel::Other => Ok(None),
        MemberModel::Fn { attrs, sig } => match method_name(attrs@) {
            Err(message) => Err(message),
            Ok(name) => match mod_sig_error(sig) {
                Some(message) => Err(message),
                None => match plan_args(sig.params@, CallMode::Method, ExportStyle::Module, false, 0) {
                    Err(message) => Err(message),
                    Ok(args) => Ok(
                        Some(
                            Export::Method {
                                export_name: exported_name(name, sig),
                                handle: HandleSource::Explicit(class),
                                args,
                            },
                        ),
                    ),
                },
            },
        },
    }
}

/// The exports of the members from `at` on.
pub open spec fn member_exports(members: Seq<MemberModel>, class: Seq<char>, item: int, at: int) -> Result<
    Seq<ModExportView>,
    Seq<char>,
>
    decreases members.len() - at,
{
    if at < 0 || at >= members.len() {
        Ok(Seq::empty())
    } else {
        match member_export(members[at], class) {
            Err(message) => Err(message),
            Ok(None) => member_exports(members, class, item, at + 1),
            Ok(Some(export)) => match member_exports(members, class, item, at + 1) {
                Err(message) => Err(message),
                Ok(rest) => Ok(seq![ModExportView { item, member: Some(at), export }] + rest),
            },
        }
    }
}

/// The exports of one item of a module.
pub open spec fn mod_item_exports(item: ModItemModel, module: Seq<char>, at: int) -> Result<Seq<ModExportView>, Seq<char>> {
    match item {
        ModItemModel::Other => Ok(Seq::empty()),
        ModItemModel::Struct { attrs } => if has_attr(attrs@, "monty_class"@) {
            Ok(seq![ModExportView { item: at, member: None, export: Export::Class }])
        } else {
            Ok(Seq::empty())
        },
        ModItemModel::Fn { attrs, sig } => match function_export_attr(attrs@) {
            Err(message) => Err(message),
            Ok(Some(attr)) => match mod_sig_error(sig) {
                Some(message) => Err(message),
                None => match plan_args(sig.params@, CallMode::Function, ExportStyle::Module, false, 0) {
                    Err(message) => Err(message),
                    Ok(args) => Ok(
                        seq![
                            ModExportView {
                                item: at,
                                member: None,
                                export: Export::Function { export_name: exported_name(attr.name, sig), args },
                            },
                        ],
                    ),
                },
            },
            Ok(None) => match shutdown_attr(attrs@) {
                Err(message) => Err(message),
                Ok(true) => Ok(seq![ModExportView { item: at, member: None, export: Export::Shutdown }]),
                Ok(false) => Ok(Seq::empty()),
            },
        },
        ModItemModel::Impl { attrs, is_trait_impl, self_name, members } => if !has_attr(
            attrs@,
            "monty_methods"@,
        ) {
            Ok(Seq::empty())
        } else if is_trait_impl {
            Err("#[monty_methods] cannot be used on trait implementations"@)
        } else if self_name is None {
            Err("expected a simple type name after `impl`"@)
        } else {
            member_exports(members@, full_class(module, self_name->Some_0@), at, 0)
        },
    }
}

/// Whether the exports of an item are its being the shutdown function.
pub open spec fn is_shutdown_item(exports: Seq<ModExportView>) -> bool {
    exports.len() == 1 && exports[0].export is Shutdown
}

/// The exports of the items from `at` on. Only one function may be the
/// shutdown function.
pub open spec fn mod_exports(items: Seq<ModItemModel>, module: Seq<char>, at: int, shutdown: bool) -> Result<
    Seq<ModExportView>,
    Seq<char>,
>
    decreases items.len() - at,
{
    if at < 0 || at >= items.len() {
        Ok(Seq::empty())
    } else {
        match mod_item_exports(items[at], module, at) {
            Err(message) => Err(message),
            Ok(exports) => if is_shutdown_item(exports) && shutdown {
                Err("only one #[monty_shutdown] function is allowed"@)
            } else {
                match mod_exports(items, module, at + 1, shutdown || is_shutdown_item(exports)) {
                    Err(message) => Err(message),
                    Ok(rest) => Ok(exports + rest),
                }
            },
        }
    }
}

/// A result with some exports of a module in front.
pub open spec fn mod_behind(front: Seq<ModExportView>, rest: Result<Seq<ModExportView>, Seq<char>>) -> Result<
    Seq<ModExportView>,
    Seq<char>,
> {
    match rest {
        Err(message) => Err(message),
        Ok(rest) => Ok(front + rest),
    }
}

fn plan_member(member: &MemberModel, class: &str) -> (r: Result<Option<Export<String, Vec<ArgPlan>>>, String>)
    ensures
        match member_export(*member, class@) {
            Ok(Some(e)) => r is Ok && r->Ok_0 is Some && export_view(r->Ok_0->Some_0) == e,
            Ok(None) => r is Ok && r->Ok_0 is None,
            Err(message) => r is Err && r->Err_0@ == message,
        },
{
    match member {
        MemberModel::Other => Ok(None),
        MemberModel::Fn { attrs, sig } => {
            let name: Option<String> = match take_method_name_override(attrs) {
                Err(message) => return Err(message),
                Ok(name) => name,
            };
            let export_name: String = choose_name(name, sig);
            match validate_mod_function_sig(sig) {
                Err(message) => return Err(message),
                Ok(()) => {},
            }
            match build_mod_dispatch_body(&sig.params, CallMode::Method) {
                Err(message) => Err(message),
                Ok(args) => Ok(
                    Some(Export::Method { export_name, handle: HandleSource::Explicit(class.to_owned()), args }),
                ),
            }
        },
    }
}

fn plan_members(members: &Vec<MemberModel>, class: &str, item: usize) -> (r: Result<Vec<ModExport>, String>)
    ensures
        match member_exports(members@, class@, item as int, 0) {
            Ok(exports) => r is Ok && mod_exports_view(r->Ok_0@) == exports,
            Err(message) => r is Err && r->Err_0@ == message,
        },
{
    let mut out: Vec<ModExport> = Vec::new();
    let mut i: usize = 0;
    proof {
        match member_exports(members@, class@, item as int, 0) {
            Ok(rest) => assert(mod_exports_view(out@) + rest =~= rest),
            Err(_) => {},
        }
    }
    while i < members.len()
        invariant
            i <= members@.len(),
            member_exports(members@, class@, item as int, 0) == mod_behind(
                mod_exports_view(out@),
                member_exports(members@, class@, item as int, i as int),
            ),
        decreases members@.len() - i,
    {
        match plan_member(&members[i], class) {
            Err(message) => return Err(message),
            Ok(None) => {},
            Ok(Some(export)) => {
                let ghost front = mod_exports_view(out@);
                let e: ModExport = ModExport { item, member: Some(i), export };
                let ghost ev = e@;
                out.push(e);
                proof {
                    assert(mod_exports_view(out@) =~= front.push(ev));
                    match member_exports(members@, class@, item as int, i + 1) {
                        Ok(rest) => assert(front + (seq![ev] + rest) =~= mod_exports_view(out@) + rest),
                        Err(_) => {},
                    }
                }
            },
        }
        i = i + 1;
    }
    proof {
        assert(mod_exports_view(out@) + Seq::<ModExportView>::empty() =~= mod_exports_view(out@));
    }
    Ok(out)
}

fn one_export(item: usize, export: Export<String, Vec<ArgPlan>>) -> (r: Vec<ModExport>)
    ensures
        mod_exports_view(r@) == seq![ModExportView { item: item as int, member: None, export: export_view(export) }],
{
    let ghost ev = export_view(export);
    let r: Vec<ModExport> = vec![ModExport { item, member: None, export }];
    proof {
        assert(mod_exports_view(r@) =~= seq![ModExportView { item: item as int, member: None, export: ev }]);
    }
    r
}

fn no_exports() -> (r: Vec<ModExport>)
    ensures
        mod_exports_view(r@) == Seq::<ModExportView>::empty(),
{
    let r: Vec<ModExport> = Vec::new();
    proof {
        assert(mod_exports_view(r@) =~= Seq::<ModExportView>::empty());
    }
    r
}

fn plan_mod_item(item: &ModItemModel, module_name: &str, at: usize) -> (r: Result<Vec<ModExport>, String>)
    ensures
        match mod_item_exports(*item, module_name@, at as int) {
            Ok(exports) => r is Ok && mod_exports_view(r->Ok_0@) == exports,
            Err(message) => r is Err && r->Err_0@ == message,
        },
{
    match item {
        ModItemModel::Other => Ok(no_exports()),
        ModItemModel::Struct { attrs } => {
            if strip_named_attr(attrs, "monty_class") {
                Ok(one_export(at, Export::Class))
            } else {
                Ok(no_exports())
            }
        },
        ModItemModel::Fn { attrs, sig } => match take_function_export_attr(attrs) {
            Err(message) => Err(message),
            Ok(Some(attr)) => {
                match validate_mod_function_sig(sig) {
                    Err(message) => return Err(message),
                    Ok(()) => {},
                }
                let export_name: String = choose_name(attr.name, sig);
                match build_mod_dispatch_body(&sig.params, CallMode::Function) {
                    Err(message) => Err(message),
                    Ok(args) => Ok(one_export(at, Export::Function { export_name, args })),
                }
            },
            Ok(None) => match take_shutdown_export_attr(attrs) {
                Err(message) => Err(message),
                Ok(true) => Ok(one_export(at, Export::Shutdown)),
                Ok(false) => Ok(no_exports()),
            },
        },
        ModItemModel::Impl { attrs, is_trait_impl, self_name, members } => {
            if !strip_named_attr(attrs, "monty_methods") {
                return Ok(no_exports());
            }
            match extract_impl_self_ident(*is_trait_impl, self_name) {
                Err(message) => Err(message),
                Ok(class) => {
                    let full: String = cat3(module_name, ".", class.as_str());
                    plan_members(members, full.as_str(), at)
                },
            }
        },
    }
}

/// Plans the exports of a module; `items` are those of its body, where it has
/// one.
pub fn expand_monty_module_mod(items: &Option<Vec<ModItemModel>>, module_name: &str) -> (r: Result<
    Vec<ModExport>,
    String,
>)
    ensures
        items is None ==> r is Err && r->Err_0@
            == "#[monty_module] requires an inline module body (`mod name { ... }` not `mod name;`)"@,
        items is Some ==> match mod_exports(items->Some_0@, module_name@, 0, false) {
            Ok(exports) => r is Ok && mod_exports_view(r->Ok_0@) == exports,
            Err(message) => r is Err && r->Err_0@ == message,
        },
{
    let list: &Vec<ModItemModel> = match items {
        None => return Err(
            "#[monty_module] requires an inline module body (`mod name { ... }` not `mod name;`)".to_owned(),
        ),
        Some(list) => list,
    };
    let mut out: Vec<ModExport> = Vec::new();
    let mut shutdown: bool = false;
    let mut i: usize = 0;
    proof {
        match mod_exports(list@, module_name@, 0, false) {
            Ok(rest) => assert(mod_exports_view(out@) + rest =~= rest),
            Err(_) => {},
        }
    }
    while i < list.len()
        invariant
            i <= list@.len(),
            items is Some,
            items->Some_0 == *list,
            mod_exports(list@, module_name@, 0, false) == mod_behind(
                mod_exports_view(out@),
                mod_exports(list@, module_name@, i as int, shutdown),
            ),
        decreases list@.len() - i,
    {
        let mut found: Vec<ModExport> = match plan_mod_item(&list[i], module_name, i) {
            Err(message) => return Err(message),
            Ok(found) => found,
        };
        let ghost fv = mod_exports_view(found@);
        let is_shutdown: bool = found.len() == 1 && match found[0].export {
            Export::Shutdown => true,
            _ => false,
        };
        proof {
            if found@.len() == 1 {
                assert(fv[0] == found@[0]@);
            }
        }
        if is_shutdown && shutdown {
            return Err("only one #[monty_shutdown] function is allowed".to_owned());
        }
        shutdown = shutdown || is_shutdown;
        let ghost front = mod_exports_view(out@);
        out.append(&mut found);
        proof {
            assert(mod_exports_view(out@) =~= front + fv);
            match mod_exports(list@, module_name@, i + 1, shutdown) {
                Ok(rest) => assert(front + (fv + rest) =~= mod_exports_view(out@) + rest),
                Err(_) => {},
            }
        }
        i = i + 1;
    }
    proof {
        assert(mod_exports_view(out@) + Seq::<ModExportView>::empty() =~= mod_exports_view(out@));
    }
    Ok(out)
}

/// Groups the methods of a module by their class; `classes` are the classes of
/// the methods in order.
pub fn group_mod_methods(classes: &Vec<String>, module_name: &str) -> (r: (Vec<String>, Vec<Vec<usize>>))
    ensures
        r.0@.len() == classes@.len(),
        forall|i: int| 0 <= i < classes@.len() ==> (#[trigger] r.0@[i])@ == full_class(module_name@, classes@[i]@),
        groups_by_key(r.0@, r.1@, classes@.len() as int),
{
    let mut keys: Vec<String> = Vec::new();
    let mut i: usize = 0;
    while i < classes.len()
        invariant
            i <= classes@.len(),
            keys@.len() == i,
            forall|j: int| 0 <= j < i ==> (#[trigger] keys@[j])@ == full_class(module_name@, classes@[j]@),
        decreases classes@.len() - i,
    {
        keys.push(cat3(module_name, ".", classes[i].as_str()));
        i = i + 1;
    }
    let groups: Vec<Vec<usize>> = group_by_key(&keys);
    (keys, groups)
}

/// The last member of a full class name is its short name, unless the class
/// itself holds a dot.
pub proof fn law_short_name_of_full_class(module: Seq<char>, class: Seq<char>)
    requires
        !class.contains('.'),
    ensures
        short_name(full_class(module, class)) == class,
{
    reveal_strlit(".");
    assert(module + "."@ + class =~= module.push('.') + class);
    crate::text::lemma_split_push(module, class, '.');
}

// ---------------------------------------------------------------------------
// The table of an extension
// ---------------------------------------------------------------------------

/// The names of the exported functions, in order.
pub open spec fn function_names(exports: Seq<ExportView>) -> Seq<Seq<char>>
    decreases exports.len(),
{
    if exports.len() == 0 {
        Seq::empty()
    } else {
        let front = function_names(exports.drop_last());
        match exports.last() {
            Export::Function { export_name, .. } => front.push(export_name),
            _ => front,
        }
    }
}

/// The full name of the class that a type stands for; `inferred` gives it for
/// the types of typed handles, and any other type goes by its own name.
pub open spec fn type_class(inferred: Seq<(String, String)>, ty: Seq<char>) -> Seq<char>
    decreases inferred.len(),
{
    if inferred.len() == 0 {
        ty
    } else if inferred[0].0@ == ty {
        inferred[0].1@
    } else {
        type_class(inferred.skip(1), ty)
    }
}

/// The full name of the class of a method's handle.
pub open spec fn class_of(h: HandleSource<Seq<char>>, inferred: Seq<(String, String)>) -> Seq<char> {
    match h {
        HandleSource::Explicit(name) => name,
        HandleSource::Inferred(_, ty) => type_class(inferred, ty),
    }
}

/// A class of the table: the text by which its methods are found, its full name
/// and the names of its methods.
pub ghost struct ClassView {
    pub key: Seq<char>,
    pub class: Seq<char>,
    pub methods: Seq<Seq<char>>,
}

/// The first class with a key.
pub open spec fn keyed_class(classes: Seq<ClassView>, key: Seq<char>, from: int) -> Option<int>
    decreases classes.len() - from,
{
    if from < 0 || from >= classes.len() {
        None
    } else if classes[from].key == key {
        Some(from)
    } else {
        keyed_class(classes, key, from + 1)
    }
}

/// The classes with one method more: it joins its class, or opens a new one.
pub open spec fn with_method(classes: Seq<ClassView>, key: Seq<char>, class: Seq<char>, method: Seq<char>) -> Seq<
    ClassView,
> {
    match keyed_class(classes, key, 0) {
        Some(c) => classes.update(c, ClassView { methods: classes[c].methods.push(method), ..classes[c] }),
        None => classes.push(ClassView { key, class, methods: seq![method] }),
    }
}

/// The classes that exported methods belong to, in the order in which they
/// first appear, each with its methods in order.
pub open spec fn method_classes(exports: Seq<ExportView>, inferred: Seq<(String, String)>) -> Seq<ClassView>
    decreases exports.len(),
{
    if exports.len() == 0 {
        Seq::empty()
    } else {
        let front = method_classes(exports.drop_last(), inferred);
        match exports.last() {
            Export::Method { export_name, handle, .. } => with_method(
                front,
                class_key(handle),
                class_of(handle, inferred),
                export_name,
            ),
            _ => front,
        }
    }
}

/// Whether a method table is that of a class.
pub open spec fn tables_class(table: MethodTable, c: ClassView) -> bool {
    &&& table.class@ == c.class
    &&& table.short_name@ == short_name(c.class)
    &&& views(table.methods@) == c.methods
}

/// Whether method tables are those of classes, in order.
pub open spec fn tables_classes(tables: Seq<MethodTable>, classes: Seq<ClassView>) -> bool {
    &&& tables.len() == classes.len()
    &&& forall|c: int| 0 <= c < tables.len() ==> tables_class(#[trigger] tables[c], classes[c])
}

/// Exports over sequences.
pub open spec fn plain_exports(exports: Seq<Export<String, Vec<ArgPlan>>>) -> Seq<ExportView> {
    exports.map_values(|e: Export<String, Vec<ArgPlan>>| export_view(e))
}

fn find_type_class(inferred: &Vec<(String, String)>, ty: &str) -> (r: String)
    ensures
        r@ == type_class(inferred@, ty@),
{
    let mut i: usize = 0;
    proof {
        assert(inferred@.skip(0) =~= inferred@);
    }
    while i < inferred.len()
        invariant
            i <= inferred@.len(),
            type_class(inferred@, ty@) == type_class(inferred@.skip(i as int), ty@),
        decreases inferred@.len() - i,
    {
        proof {
            assert(inferred@.skip(i as int)[0] == inferred@[i as int]);
            assert(inferred@.skip(i as int).skip(1) =~= inferred@.skip(i + 1));
        }
        if same(inferred[i].0.as_str(), ty) {
            return inferred[i].1.clone();
        }
        i = i + 1;
    }
    ty.to_owned()
}

/// The table of an extension from its exports: every exported function in
/// order, and every class with its methods. `inferred` gives the full class
/// names of the types of typed handles.
pub fn export_table(
    module_name: &str,
    exports: &Vec<Export<String, Vec<ArgPlan>>>,
    inferred: &Vec<(String, String)>,
) -> (r: ExportTable)
    ensures
        r.module_name@ == module_name@,
        views(r.functions@) == function_names(plain_exports(exports@)),
        tables_classes(r.classes@, method_classes(plain_exports(exports@), inferred@)),
{
    let ghost all = plain_exports(exports@);
    let mut functions: Vec<String> = Vec::new();
    let mut keys: Vec<String> = Vec::new();
    let mut classes: Vec<MethodTable> = Vec::new();
    let mut i: usize = 0;
    proof {
        assert(all.take(0) =~= Seq::<ExportView>::empty());
        assert(views(functions@) =~= Seq::<Seq<char>>::empty());
    }
    while i < exports.len()
        invariant
            i <= exports@.len(),
            all == plain_exports(exports@),
            views(functions@) == function_names(all.take(i as int)),
            tables_classes(classes@, method_classes(all.take(i as int), inferred@)),
            keys@.len() == classes@.len(),
            forall|c: int|
                0 <= c < keys@.len() ==> (#[trigger] keys@[c])@ == method_classes(all.take(i as int), inferred@)[c].key,
        decreases exports@.len() - i,
    {
        let ghost before = method_classes(all.take(i as int), inferred@);
        proof {
            assert(all.take(i + 1).drop_last() =~= all.take(i as int));
            assert(all.take(i + 1).last() == export_view(exports@[i as int]));
        }
        match &exports[i] {
            Export::Function { export_name, .. } => {
                let ghost names = views(functions@);
                functions.push(export_name.clone());
                proof {
                    assert(views(functions@) =~= names.push(export_name@));
                }
            },
            Export::Method { export_name, handle, .. } => {
                let (key, class): (String, String) = match handle {
                    HandleSource::Explicit(name) => (cat2("=", name.as_str()), name.clone()),
                    HandleSource::Inferred(_, ty) => (
                        cat2("<", ty.as_str()),
                        find_type_class(inferred, ty.as_str()),
                    ),
                };
                add_method(&mut keys, &mut classes, key, class, export_name, Ghost(before));
            },
            _ => {},
        }
        i = i + 1;
    }
    proof {
        assert(all.take(all.len() as int) =~= all);
    }
    ExportTable { module_name: module_name.to_owned(), functions, classes }
}

fn add_method(
    keys: &mut Vec<String>,
    classes: &mut Vec<MethodTable>,
    key: String,
    class: String,
    method: &String,
    Ghost(before): Ghost<Seq<ClassView>>,
)
    requires
        tables_classes(old(classes)@, before),
        old(keys)@.len() == before.len(),
        forall|c: int| 0 <= c < before.len() ==> (#[trigger] old(keys)@[c])@ == before[c].key,
    ensures
        ({
            let after = with_method(before, key@, class@, method@);
            &&& tables_classes(final(classes)@, after)
            &&& final(keys)@.len() == after.len()
            &&& forall|c: int| 0 <= c < after.len() ==> (#[trigger] final(keys)@[c])@ == after[c].key
        }),
{
    let mut c: usize = 0;
    while c < keys.len()
        invariant
            c <= keys@.len(),
            keys@ == old(keys)@,
            classes@ == old(classes)@,
            tables_classes(classes@, before),
            keys@.len() == before.len(),
            forall|j: int| 0 <= j < before.len() ==> (#[trigger] keys@[j])@ == before[j].key,
            keyed_class(before, key@, 0) == keyed_class(before, key@, c as int),
        decreases keys@.len() - c,
    {
        if same(keys[c].as_str(), key.as_str()) {
            let ghost names = views(classes@[c as int].methods@);
            let ghost tables = classes@;
            let mut table: MethodTable = classes.remove(c);
            table.methods.push(method.clone());
            proof {
                assert(views(table.methods@) =~= names.push(method@));
            }
            let ghost joined = table;
            classes.insert(c, table);
            proof {
                assert(classes@ =~= tables.update(c as int, joined));
            }
            return;
        }
        c = c + 1;
    }
    let short: String = short_type_name(class.as_str());
    let mut methods: Vec<String> = Vec::new();
    methods.push(method.clone());
    proof {
        assert(views(methods@) =~= seq![method@]);
    }
    keys.push(key);
    classes.push(MethodTable { class, short_name: short, methods });
}

/// The function that an item of an impl block exports, if it exports one.
pub open spec fn item_function(item: ImplItemModel) -> Seq<Seq<char>> {
    match item_export(item) {
        Ok(Some(Export::Function { export_name, .. })) => seq![export_name],
        _ => Seq::empty(),
    }
}

/// The functions that the items of an impl block export, from `at` on.
pub open spec fn item_functions(items: Seq<ImplItemModel>, at: int) -> Seq<Seq<char>>
    decreases items.len() - at,
{
    if at < 0 || at >= items.len() {
        Seq::empty()
    } else {
        item_function(items[at]) + item_functions(items, at + 1)
    }
}

/// What is exported, without the items' indices.
pub open spec fn without_items(exports: Seq<(int, ExportView)>) -> Seq<ExportView> {
    exports.map_values(|e: (int, ExportView)| e.1)
}

proof fn lemma_function_names_concat(a: Seq<ExportView>, b: Seq<ExportView>)
    ensures
        function_names(a + b) == function_names(a) + function_names(b),
    decreases b.len(),
{
    if b.len() == 0 {
        assert(a + b =~= a);
        assert(function_names(a) + function_names(b) =~= function_names(a));
    } else {
        assert((a + b).drop_last() =~= a + b.drop_last());
        lemma_function_names_concat(a, b.drop_last());
        assert(function_names(a + b) =~= function_names(a) + function_names(b));
    }
}

proof fn lemma_function_names_one(e: ExportView)
    ensures
        function_names(seq![e]) == match e {
            Export::Function { export_name, .. } => seq![export_name],
            _ => Seq::empty(),
        },
{
    assert(seq![e].drop_last() =~= Seq::<ExportView>::empty());
    assert(function_names(Seq::<ExportView>::empty()) =~= Seq::<Seq<char>>::empty());
    match e {
        Export::Function { export_name, .. } => {
            assert(Seq::<Seq<char>>::empty().push(export_name) =~= seq![export_name]);
        },
        _ => {},
    }
}

proof fn lemma_item_functions(items: Seq<ImplItemModel>, at: int, shutdown: bool)
    requires
        0 <= at,
        impl_exports(items, at, shutdown) is Ok,
    ensures
        function_names(without_items(impl_exports(items, at, shutdown)->Ok_0)) == item_functions(items, at),
    decreases items.len() - at,
{
    let exports = impl_exports(items, at, shutdown)->Ok_0;
    if at >= items.len() {
        assert(without_items(exports) =~= Seq::<ExportView>::empty());
    } else {
        match item_export(items[at]) {
            Ok(Some(e)) => {
                lemma_item_functions(items, at + 1, shutdown || e is Shutdown);
                let rest = impl_exports(items, at + 1, shutdown || e is Shutdown)->Ok_0;
                assert(without_items(exports) =~= seq![e] + without_items(rest));
                lemma_function_names_concat(seq![e], without_items(rest));
                lemma_function_names_one(e);
            },
            _ => {
                lemma_item_functions(items, at + 1, shutdown);
                assert(Seq::<Seq<char>>::empty() + item_functions(items, at + 1) =~= item_functions(items, at + 1));
            },
        }
    }
}

/// The manifest of an impl block lists exactly its exported functions, in the
/// order of the source.
pub proof fn law_manifest_follows_impl_items(items: Seq<ImplItemModel>)
    requires
        impl_exports(items, 0, false) is Ok,
    ensures
        function_names(without_items(impl_exports(items, 0, false)->Ok_0)) == item_functions(items, 0),
{
    lemma_item_functions(items, 0, false);
}

/// The function that an item of a module exports, if it exports one.
pub open spec fn mod_item_function(item: ModItemModel) -> Seq<Seq<char>> {
    match item {
        ModItemModel::Fn { attrs, sig } => match function_export_attr(attrs@) {
            Ok(Some(attr)) => seq![exported_name(attr.name, sig)],
            _ => Seq::empty(),
        },
        _ => Seq::empty(),
    }
}

/// The functions that the items of a module export, from `at` on.
pub open spec fn mod_item_functions(items: Seq<ModItemModel>, at: int) -> Seq<Seq<char>>
    decreases items.len() - at,
{
    if at < 0 || at >= items.len() {
        Seq::empty()
    } else {
        mod_item_function(items[at]) + mod_item_functions(items, at + 1)
    }
}

/// What a module exports, without the items' indices.
pub open spec fn without_places(exports: Seq<ModExportView>) -> Seq<ExportView> {
    exports.map_values(|e: ModExportView| e.export)
}

proof fn lemma_members_are_no_functions(members: Seq<MemberModel>, class: Seq<char>, item: int, at: int)
    requires
        0 <= at,
        member_exports(members, class, item, at) is Ok,
    ensures
        function_names(without_places(member_exports(members, class, item, at)->Ok_0)) == Seq::<Seq<char>>::empty(),
    decreases members.len() - at,
{
    let exports = member_exports(members, class, item, at)->Ok_0;
    if at >= members.len() {
        assert(without_places(exports) =~= Seq::<ExportView>::empty());
    } else {
        lemma_members_are_no_functions(members, class, item, at + 1);
        match member_export(members[at], class) {
            Ok(Some(e)) => {
                let rest = member_exports(members, class, item, at + 1)->Ok_0;
                assert(without_places(exports) =~= seq![e] + without_places(rest));
                lemma_function_names_concat(seq![e], without_places(rest));
                lemma_function_names_one(e);
                assert(Seq::<Seq<char>>::empty() + Seq::<Seq<char>>::empty() =~= Seq::<Seq<char>>::empty());
            },
            _ => {},
        }
    }
}

proof fn lemma_mod_item_function(item: ModItemModel, module: Seq<char>, at: int)
    requires
        mod_item_exports(item, module, at) is Ok,
    ensures
        function_names(without_places(mod_item_exports(item, module, at)->Ok_0)) == mod_item_function(item),
{
    let exports = mod_item_exports(item, module, at)->Ok_0;
    if exports.len() == 0 {
        assert(without_places(exports) =~= Seq::<ExportView>::empty());
    } else if exports.len() == 1 {
        assert(without_places(exports) =~= seq![exports[0].export]);
        lemma_function_names_one(exports[0].export);
    }
    match item {
        ModItemModel::Impl { self_name, members, attrs, .. } => {
            if has_attr(attrs@, "monty_methods"@) {
                lemma_members_are_no_functions(members@, full_class(module, self_name->Some_0@), at, 0);
            }
        },
        _ => {},
    }
}

proof fn lemma_mod_item_functions(items: Seq<ModItemModel>, module: Seq<char>, at: int, shutdown: bool)
    requires
        0 <= at,
        mod_exports(items, module, at, shutdown) is Ok,
    ensures
        function_names(without_places(mod_exports(items, module, at, shutdown)->Ok_0)) == mod_item_functions(items, at),
    decreases items.len() - at,
{
    let exports = mod_exports(items, module, at, shutdown)->Ok_0;
    if at >= items.len() {
        assert(without_places(exports) =~= Seq::<ExportView>::empty());
    } else {
        let own = mod_item_exports(items[at], module, at)->Ok_0;
        let seen = shutdown || is_shutdown_item(own);
        let rest = mod_exports(items, module, at + 1, seen)->Ok_0;
        lemma_mod_item_functions(items, module, at + 1, seen);
        lemma_mod_item_function(items[at], module, at);
        assert(without_places(exports) =~= without_places(own) + without_places(rest));
        lemma_function_names_concat(without_places(own), without_places(rest));
    }
}

/// The manifest of a module lists exactly its exported functions, in the order
/// of the source.
pub proof fn law_manifest_follows_module_items(items: Seq<ModItemModel>, module: Seq<char>)
    requires
        mod_exports(items, module, 0, false) is Ok,
    ensures
        function_names(without_places(mod_exports(items, module, 0, false)->Ok_0)) == mod_item_functions(items, 0),
{
    lemma_mod_item_functions(items, module, 0, false);
}

/// The exports of an impl block, ready for its table.
pub fn impl_table_exports(exports: Vec<(usize, Export<String, Vec<ArgPlan>>)>) -> (r: Vec<Export<String, Vec<ArgPlan>>>)
    ensures
        plain_exports(r@) == without_items(exports_view(exports@)),
{
    let ghost all = exports@;
    let mut out: Vec<Export<String, Vec<ArgPlan>>> = Vec::new();
    for entry in it: exports
        invariant
            it.seq() == all,
            out@.len() == it.index(),
            forall|j: int| 0 <= j < out@.len() ==> #[trigger] out@[j] == all[j].1,
    {
        out.push(entry.1);
    }
    proof {
        assert(plain_exports(out@) =~= without_items(exports_view(all)));
    }
    out
}

/// The exports of a module, ready for its table.
pub fn mod_table_exports(exports: Vec<ModExport>) -> (r: Vec<Export<String, Vec<ArgPlan>>>)
    ensures
        plain_exports(r@) == without_places(mod_exports_view(exports@)),
{
    let ghost all = exports@;
    let mut out: Vec<Export<String, Vec<ArgPlan>>> = Vec::new();
    for entry in it: exports
        invariant
            it.seq() == all,
            out@.len() == it.index(),
            forall|j: int| 0 <= j < out@.len() ==> #[trigger] out@[j] == all[j].export,
    {
        out.push(entry.export);
    }
    proof {
        assert(plain_exports(out@) =~= without_places(mod_exports_view(all)));
    }
    out
}

// ---------------------------------------------------------------------------
// What attributes, signatures and exports come to
// ---------------------------------------------------------------------------

/// Of equal keys the last counts: its value is the one read, and there is none
/// only where the key does not occur.
pub proof fn law_last_value_counts(entries: Seq<(String, String)>, key: Seq<char>)
    ensures
        last_value(entries, key) is None <==> forall|i: int| 0 <= i < entries.len() ==> (#[trigger] entries[i]).0@ != key,
        last_value(entries, key) is Some ==> exists|i: int|
            {
                &&& 0 <= i < entries.len()
                &&& (#[trigger] entries[i]).0@ == key
                &&& entries[i].1 == last_value(entries, key)->Some_0
                &&& forall|j: int| i < j < entries.len() ==> (#[trigger] entries[j]).0@ != key
            },
    decreases entries.len(),
{
    if entries.len() > 0 {
        let last = entries.len() - 1;
        if entries[last].0@ != key {
            let front = entries.drop_last();
            law_last_value_counts(front, key);
            if last_value(front, key) is Some {
                let k = choose|i: int|
                    {
                        &&& 0 <= i < front.len()
                        &&& (#[trigger] front[i]).0@ == key
                        &&& front[i].1 == last_value(front, key)->Some_0
                        &&& forall|j: int| i < j < front.len() ==> (#[trigger] front[j]).0@ != key
                    };
                assert(entries[k] == front[k]);
                assert forall|j: int| k < j < entries.len() implies (#[trigger] entries[j]).0@ != key by {
                    if j < last {
                        assert(entries[j] == front[j]);
                    }
                }
            } else {
                assert forall|i: int| 0 <= i < entries.len() implies (#[trigger] entries[i]).0@ != key by {
                    if i < last {
                        assert(entries[i] == front[i]);
                    }
                }
            }
        } else {
            assert(entries[last].0@ == key);
        }
    }
}

/// Of equal keys of a module attribute the last one's place counts.
pub proof fn law_last_key_counts(keys: Seq<String>, key: Seq<char>)
    ensures
        match last_key(keys, key) {
            Some(i) => {
                &&& 0 <= i < keys.len()
                &&& keys[i]@ == key
                &&& forall|j: int| i < j < keys.len() ==> (#[trigger] keys[j])@ != key
            },
            None => forall|j: int| 0 <= j < keys.len() ==> (#[trigger] keys[j])@ != key,
        },
    decreases keys.len(),
{
    if keys.len() > 0 && keys.last()@ != key {
        let front = keys.drop_last();
        law_last_key_counts(front, key);
        assert forall|j: int| 0 <= j < front.len() implies #[trigger] keys[j] == front[j] by {}
    }
}

/// The attribute found is the first of those looked for, and none is found only
/// where there is none.
pub proof fn law_first_attribute_is_found(attrs: Seq<AttrModel>, wanted: Wanted, from: int)
    requires
        0 <= from,
    ensures
        match first_wanted(attrs, wanted, from) {
            Some(i) => {
                &&& from <= i < attrs.len()
                &&& is_wanted(wanted, attrs[i])
                &&& forall|j: int| from <= j < i ==> !is_wanted(wanted, #[trigger] attrs[j])
            },
            None => forall|j: int| from <= j < attrs.len() ==> !is_wanted(wanted, #[trigger] attrs[j]),
        },
    decreases attrs.len() - from,
{
    if from < attrs.len() && !is_wanted(wanted, attrs[from]) {
        law_first_attribute_is_found(attrs, wanted, from + 1);
    }
}

/// Attributes are known by two names each, the plain one and the one with the
/// prefix; any other name marks nothing.
pub proof fn law_attributes_go_by_name(name: Seq<char>)
    ensures
        role(name) is Function <==> name == "function"@ || name == "monty_function"@,
        role(name) is Method <==> name == "method"@ || name == "monty_method"@,
        role(name) is Shutdown <==> name == "shutdown"@ || name == "monty_shutdown"@,
{
    reveal_strlit("function");
    reveal_strlit("monty_function");
    reveal_strlit("method");
    reveal_strlit("monty_method");
    reveal_strlit("shutdown");
    reveal_strlit("monty_shutdown");
    assert("function"@.len() == 8 && "monty_function"@.len() == 14 && "method"@.len() == 6 && "monty_method"@.len() == 12);
    assert("shutdown"@.len() == 8 && "monty_shutdown"@.len() == 14);
    assert("function"@[0] == 'f' && "shutdown"@[0] == 's');
    assert("monty_function"@[6] == 'f' && "monty_shutdown"@[6] == 's');
}

/// The attributes that stay are all those that were not looked for, in their
/// order.
pub proof fn law_other_attributes_stay(attrs: Seq<AttrModel>, wanted: Wanted)
    ensures
        forall|i: int|
            #[trigger] retained(attrs, wanted).contains(i) <==> 0 <= i < attrs.len() && !is_wanted(wanted, attrs[i]),
        forall|a: int, b: int|
            0 <= a < b < retained(attrs, wanted).len() ==> #[trigger] retained(attrs, wanted)[a] < #[trigger] retained(
                attrs,
                wanted,
            )[b],
    decreases attrs.len(),
{
    if attrs.len() > 0 {
        let front = attrs.drop_last();
        let last = attrs.len() - 1;
        law_other_attributes_stay(front, wanted);
        let before = retained(front, wanted);
        let all = retained(attrs, wanted);
        assert forall|i: int| 0 <= i < before.len() implies 0 <= #[trigger] before[i] < last by {
            assert(before.contains(before[i]));
        }
        assert forall|i: int| #[trigger] all.contains(i) <==> 0 <= i < attrs.len() && !is_wanted(wanted, attrs[i]) by {
            if 0 <= i < last {
                assert(attrs[i] == front[i]);
                assert(before.contains(i) <==> !is_wanted(wanted, front[i]));
            }
            if all.contains(i) {
                let a = choose|a: int| 0 <= a < all.len() && all[a] == i;
                if a < before.len() {
                    assert(before[a] == i);
                    assert(before.contains(i));
                }
            }
            if before.contains(i) {
                let a = choose|a: int| 0 <= a < before.len() && before[a] == i;
                assert(all[a] == i);
            }
            if i == last && !is_wanted(wanted, attrs[last]) {
                assert(all[before.len() as int] == last);
            }
        }
        assert forall|a: int, b: int| 0 <= a < b < all.len() implies #[trigger] all[a] < #[trigger] all[b] by {
            assert(all[a] == before[a]);
            if b < before.len() {
                assert(all[b] == before[b]);
            }
        }
    } else {
        assert(retained(attrs, wanted).len() == 0);
    }
}

/// A function attribute takes a name and nothing else, and a method attribute a
/// name and a handle; of each the last counts.
pub proof fn law_attribute_arguments_are_read(attr: AttrModel)
    ensures
        function_attr(attr) is Ok <==> attr.parse_error is None && forall|i: int|
            0 <= i < attr.entries@.len() ==> (#[trigger] attr.entries@[i]).0@ == "name"@,
        function_attr(attr) is Ok ==> function_attr(attr)->Ok_0.name == last_value(attr.entries@, "name"@),
        method_attr(attr) is Ok <==> attr.parse_error is None && forall|i: int|
            0 <= i < attr.entries@.len() ==> (#[trigger] attr.entries@[i]).0@ == "name"@ || attr.entries@[i].0@
                == "handle"@,
        method_attr(attr) is Ok ==> method_attr(attr)->Ok_0.name == last_value(attr.entries@, "name"@)
            && method_attr(attr)->Ok_0.handle == last_value(attr.entries@, "handle"@),
{
}

proof fn lemma_none_wanted(attrs: Seq<AttrModel>, wanted: Wanted)
    requires
        forall|i: int| 0 <= i < attrs.len() ==> !is_wanted(wanted, #[trigger] attrs[i]),
    ensures
        first_wanted(attrs, wanted, 0) is None,
{
    law_first_attribute_is_found(attrs, wanted, 0);
}

proof fn lemma_one_wanted(attrs: Seq<AttrModel>, wanted: Wanted, i: int)
    requires
        0 <= i < attrs.len(),
        is_wanted(wanted, attrs[i]),
        forall|j: int| 0 <= j < attrs.len() && j != i ==> !is_wanted(wanted, #[trigger] attrs[j]),
    ensures
        first_wanted(attrs, wanted, 0) == Some(i),
        first_wanted(attrs, wanted, i + 1) is None,
{
    law_first_attribute_is_found(attrs, wanted, 0);
    law_first_attribute_is_found(attrs, wanted, i + 1);
}

proof fn lemma_two_wanted(attrs: Seq<AttrModel>, wanted: Wanted, i: int, j: int)
    requires
        0 <= i < j < attrs.len(),
        is_wanted(wanted, attrs[i]),
        is_wanted(wanted, attrs[j]),
    ensures
        first_wanted(attrs, wanted, 0) is Some,
        first_wanted(attrs, wanted, first_wanted(attrs, wanted, 0)->Some_0 + 1) is Some,
{
    law_first_attribute_is_found(attrs, wanted, 0);
    let first = first_wanted(attrs, wanted, 0)->Some_0;
    law_first_attribute_is_found(attrs, wanted, first + 1);
}

/// Whether an attribute marks its item as an export.
pub open spec fn marks_export(attr: AttrModel) -> bool {
    role(attr.name@) is Function || role(attr.name@) is Method || role(attr.name@) is Shutdown
}

/// An item that no attribute marks is not exported.
pub proof fn law_unmarked_items_are_not_exported(attrs: Seq<AttrModel>)
    requires
        forall|i: int| 0 <= i < attrs.len() ==> !marks_export(#[trigger] attrs[i]),
    ensures
        exported_as(attrs) == Ok::<Option<ExportKind>, Seq<char>>(None),
{
    assert forall|i: int| 0 <= i < attrs.len() implies !is_wanted(Wanted::AnyExport, #[trigger] attrs[i]) by {
        assert(!marks_export(attrs[i]));
    }
    lemma_none_wanted(attrs, Wanted::AnyExport);
}

/// An item that one attribute marks is exported as that attribute says, where
/// the attribute can be read.
pub proof fn law_marked_items_are_exported_as_marked(attrs: Seq<AttrModel>, i: int)
    requires
        0 <= i < attrs.len(),
        marks_export(attrs[i]),
        forall|j: int| 0 <= j < attrs.len() && j != i ==> !marks_export(#[trigger] attrs[j]),
    ensures
        role(attrs[i].name@) is Function ==> exported_as(attrs) == match function_attr(attrs[i]) {
            Ok(f) => Ok::<Option<ExportKind>, Seq<char>>(Some(ExportKind::Function(f))),
            Err(message) => Err(message),
        },
        role(attrs[i].name@) is Method ==> exported_as(attrs) == match method_attr(attrs[i]) {
            Ok(m) => Ok::<Option<ExportKind>, Seq<char>>(Some(ExportKind::Method(m))),
            Err(message) => Err(message),
        },
        role(attrs[i].name@) is Shutdown ==> (exported_as(attrs) is Ok <==> attrs[i].valueless),
        role(attrs[i].name@) is Shutdown && attrs[i].valueless ==> exported_as(attrs)->Ok_0 == Some(ExportKind::Shutdown),
{
    assert forall|j: int| 0 <= j < attrs.len() && j != i implies !is_wanted(Wanted::AnyExport, #[trigger] attrs[j]) by {
        assert(!marks_export(attrs[j]));
    }
    lemma_one_wanted(attrs, Wanted::AnyExport, i);
}

/// An item that two attributes mark is refused.
pub proof fn law_doubly_marked_items_are_refused(attrs: Seq<AttrModel>, i: int, j: int)
    requires
        0 <= i < j < attrs.len(),
        marks_export(attrs[i]),
        marks_export(attrs[j]),
    ensures
        exported_as(attrs) is Err,
{
    lemma_two_wanted(attrs, Wanted::AnyExport, i, j);
}

/// In a module an attribute of one kind counts where it is the only one of its
/// kind: it gives the name of a function or a method, or marks the shutdown
/// function, which takes no arguments.
pub proof fn law_only_mark_of_its_kind_counts(attrs: Seq<AttrModel>, i: int)
    requires
        0 <= i < attrs.len(),
        forall|j: int| 0 <= j < attrs.len() && j != i ==> role((#[trigger] attrs[j]).name@) != role(attrs[i].name@),
    ensures
        role(attrs[i].name@) is Function ==> function_export_attr(attrs) == match function_attr(attrs[i]) {
            Ok(f) => Ok::<Option<FunctionAttr>, Seq<char>>(Some(f)),
            Err(message) => Err(message),
        },
        role(attrs[i].name@) is Shutdown ==> (shutdown_attr(attrs) == Ok::<bool, Seq<char>>(true) <==> attrs[i].valueless),
        role(attrs[i].name@) is Method ==> method_name(attrs) == match method_attr(attrs[i]) {
            Ok(m) => Ok::<Option<String>, Seq<char>>(m.name),
            Err(message) => Err(message),
        },
{
    let wanted = Wanted::Only(role(attrs[i].name@));
    assert forall|j: int| 0 <= j < attrs.len() && j != i implies !is_wanted(wanted, #[trigger] attrs[j]) by {
        assert(role(attrs[j].name@) != role(attrs[i].name@));
    }
    lemma_one_wanted(attrs, wanted, i);
}

/// In a module a second attribute of a kind is refused.
pub proof fn law_second_mark_of_a_kind_is_refused(attrs: Seq<AttrModel>, i: int, j: int)
    requires
        0 <= i < j < attrs.len(),
        role(attrs[i].name@) == role(attrs[j].name@),
    ensures
        role(attrs[i].name@) is Function ==> function_export_attr(attrs) is Err,
        role(attrs[i].name@) is Shutdown ==> shutdown_attr(attrs) is Err,
        role(attrs[i].name@) is Method ==> method_name(attrs) is Err,
{
    lemma_two_wanted(attrs, Wanted::Only(role(attrs[i].name@)), i, j);
}

/// In a module an item without an attribute of a kind is no such export, and a
/// method goes by its own name.
pub proof fn law_missing_marks_mean_nothing(attrs: Seq<AttrModel>, r: AttrRole)
    requires
        forall|i: int| 0 <= i < attrs.len() ==> role((#[trigger] attrs[i]).name@) != r,
    ensures
        r is Function ==> function_export_attr(attrs) == Ok::<Option<FunctionAttr>, Seq<char>>(None),
        r is Shutdown ==> shutdown_attr(attrs) == Ok::<bool, Seq<char>>(false),
        r is Method ==> method_name(attrs) == Ok::<Option<String>, Seq<char>>(None),
{
    assert forall|i: int| 0 <= i < attrs.len() implies !is_wanted(Wanted::Only(r), #[trigger] attrs[i]) by {
        assert(role(attrs[i].name@) != r);
    }
    lemma_none_wanted(attrs, Wanted::Only(r));
}

/// Signatures are accepted exactly where they are neither async nor generic and
/// have the receiver that their place asks for.
pub proof fn law_signatures_need_their_receiver(sig: SigModel)
    ensures
        method_sig_error(sig) is None <==> !sig.is_async && !sig.is_generic && sig.receiver is SharedRef,
        mod_sig_error(sig) is None <==> !sig.is_async && !sig.is_generic && sig.receiver is Absent && sig.has_inputs,
{
}

/// An item is exported under the name that its attribute gives, else under its
/// own, with its arguments planned; a function that cannot be planned is not
/// exported.
pub proof fn law_functions_are_exported_by_name(sig: SigModel, attr: FunctionAttr)
    ensures
        function_export(sig, attr) is Ok <==> method_sig_error(sig) is None && plan_args(
            sig.params@,
            CallMode::Function,
            ExportStyle::Impl,
            false,
            0,
        ) is Ok,
        function_export(sig, attr) is Ok ==> {
            &&& function_export(sig, attr)->Ok_0 is Function
            &&& attr.name is Some ==> function_export(sig, attr)->Ok_0->Function_export_name == attr.name->Some_0@
            &&& attr.name is None ==> function_export(sig, attr)->Ok_0->Function_export_name == sig.name@
            &&& Ok::<Seq<ArgPlan>, Seq<char>>(function_export(sig, attr)->Ok_0->Function_args) == plan_args(
                sig.params@,
                CallMode::Function,
                ExportStyle::Impl,
                false,
                0,
            )
        },
{
}

/// A method is exported for the class that its attribute gives, else for that
/// of its typed handle, the first parameter that is neither the context nor the
/// raw arguments; an untyped handle needs the attribute.
pub proof fn law_methods_are_exported_for_their_class(sig: SigModel, attr: MethodAttr)
    requires
        method_export(sig, attr) is Ok,
    ensures
        ({
            let e = method_export(sig, attr)->Ok_0;
            &&& method_sig_error(sig) is None
            &&& e is Method
            &&& attr.name is Some ==> e->Method_export_name == attr.name->Some_0@
            &&& attr.name is None ==> e->Method_export_name == sig.name@
            &&& Ok::<Seq<ArgPlan>, Seq<char>>(e->Method_args) == plan_args(
                sig.params@,
                CallMode::Method,
                ExportStyle::Impl,
                false,
                0,
            )
            &&& attr.handle is Some ==> e->handle == HandleSource::Explicit(attr.handle->Some_0@)
            &&& attr.handle is None ==> e->handle is Inferred && ({
                let at = e->handle->Inferred_0 as int;
                let param = sig.params@[at];
                &&& 0 <= at < sig.params@.len()
                &&& param.typed
                &&& !param.ty.context() && !param.ty.raw_args()
                &&& forall|j: int|
                    0 <= j < at && (#[trigger] sig.params@[j]).typed ==> sig.params@[j].ty.context()
                        || sig.params@[j].ty.raw_args()
                &&& param.ty is Path ==> param.ty->Path_last@ != "ExtHandle"@
                &&& !(param.ty is RefPath) && !(param.ty is RefOther)
                &&& e->handle->Inferred_1 == param.ty_text@
            })
        }),
{
    assert(sig.params.len() <= usize::MAX);
    lemma_handle_param(sig.params@, 0);
}

proof fn lemma_handle_param(params: Seq<Param>, from: int)
    requires
        0 <= from,
    ensures
        match handle_param(params, from) {
            Some(i) => {
                &&& from <= i < params.len()
                &&& params[i].typed && !params[i].ty.context() && !params[i].ty.raw_args()
                &&& forall|j: int|
                    from <= j < i && (#[trigger] params[j]).typed ==> params[j].ty.context() || params[j].ty.raw_args()
            },
            None => true,
        },
    decreases params.len() - from,
{
    if from < params.len() && !(params[from].typed && !params[from].ty.context() && !params[from].ty.raw_args()) {
        lemma_handle_param(params, from + 1);
    }
}

/// A member of an impl block of methods is exported for the class of the block,
/// under the name that its attribute gives or its own; anything but a function
/// is passed over.
pub proof fn law_members_are_exported_for_their_class(member: MemberModel, class: Seq<char>)
    requires
        member_export(member, class) is Ok,
    ensures
        match member {
            MemberModel::Other => member_export(member, class)->Ok_0 is None,
            MemberModel::Fn { attrs, sig } => {
                let e = member_export(member, class)->Ok_0;
                &&& e is Some
                &&& e->Some_0 is Method
                &&& e->Some_0->handle == HandleSource::Explicit(class)
                &&& method_name(attrs@) is Ok
                &&& method_name(attrs@)->Ok_0 is Some ==> e->Some_0->Method_export_name == method_name(
                    attrs@,
                )->Ok_0->Some_0@
                &&& method_name(attrs@)->Ok_0 is None ==> e->Some_0->Method_export_name == sig.name@
                &&& Ok::<Seq<ArgPlan>, Seq<char>>(e->Some_0->Method_args) == plan_args(
                    sig.params@,
                    CallMode::Method,
                    ExportStyle::Module,
                    false,
                    0,
                )
            },
        },
{
}

/// An item of a module exports what it is marked as: a class, a function or the
/// shutdown function, each once and for the item itself; an unmarked item
/// exports nothing.
pub proof fn law_module_items_export_what_they_are_marked_as(item: ModItemModel, module: Seq<char>, at: int)
    requires
        mod_item_exports(item, module, at) is Ok,
    ensures
        ({
            let exports = mod_item_exports(item, module, at)->Ok_0;
            match item {
                ModItemModel::Other => exports.len() == 0,
                ModItemModel::Struct { attrs } => {
                    &&& has_attr(attrs@, "monty_class"@) ==> exports.len() == 1 && exports[0].export is Class
                        && exports[0].item == at && exports[0].member is None
                    &&& !has_attr(attrs@, "monty_class"@) ==> exports.len() == 0
                },
                ModItemModel::Fn { attrs, sig } => {
                    let marked = function_export_attr(attrs@);
                    &&& marked is Ok
                    &&& exports.len() <= 1
                    &&& exports.len() == 1 ==> exports[0].item == at && exports[0].member is None
                    &&& marked->Ok_0 is Some ==> exports.len() == 1 && exports[0].export is Function && Ok::<
                        Seq<ArgPlan>,
                        Seq<char>,
                    >(exports[0].export->Function_args) == plan_args(
                        sig.params@,
                        CallMode::Function,
                        ExportStyle::Module,
                        false,
                        0,
                    ) && exports[0].export->Function_export_name == (if marked->Ok_0->Some_0.name is Some {
                        marked->Ok_0->Some_0.name->Some_0@
                    } else {
                        sig.name@
                    })
                    &&& marked->Ok_0 is None ==> (exports.len() == 1 <==> shutdown_attr(attrs@) == Ok::<bool, Seq<char>>(
                        true,
                    ))
                    &&& marked->Ok_0 is None && exports.len() == 1 ==> exports[0].export is Shutdown
                },
                ModItemModel::Impl { attrs, is_trait_impl, self_name, members } => {
                    &&& !has_attr(attrs@, "monty_methods"@) ==> exports.len() == 0
                    &&& has_attr(attrs@, "monty_methods"@) ==> !is_trait_impl && self_name is Some && member_exports(
                        members@,
                        module + "."@ + self_name->Some_0@,
                        at,
                        0,
                    ) == Ok::<Seq<ModExportView>, Seq<char>>(exports)
                },
            }
        }),
{
}

/// The methods of an impl block follow its members: each function is exported
/// once, for its own place, in the order of the source.
pub proof fn law_method_exports_follow_members(members: Seq<MemberModel>, class: Seq<char>, item: int)
    requires
        member_exports(members, class, item, 0) is Ok,
    ensures
        ({
            let exports = member_exports(members, class, item, 0)->Ok_0;
            &&& forall|k: int|
                0 <= k < exports.len() ==> {
                    let m = (#[trigger] exports[k]).member;
                    &&& exports[k].item == item
                    &&& m is Some
                    &&& 0 <= m->Some_0 < members.len()
                    &&& member_export(members[m->Some_0], class) == Ok::<Option<ExportView>, Seq<char>>(
                        Some(exports[k].export),
                    )
                }
            &&& forall|k: int, l: int|
                0 <= k < l < exports.len() ==> (#[trigger] exports[k]).member->Some_0 < (
                #[trigger] exports[l]).member->Some_0
            &&& forall|m: int|
                0 <= m < members.len() && (#[trigger] members[m]) is Fn ==> exists|k: int|
                    0 <= k < exports.len() && (#[trigger] exports[k]).member == Some(m)
        }),
{
    lemma_member_exports(members, class, item, 0);
}

proof fn lemma_member_exports(members: Seq<MemberModel>, class: Seq<char>, item: int, at: int)
    requires
        0 <= at <= members.len(),
        member_exports(members, class, item, at) is Ok,
    ensures
        ({
            let exports = member_exports(members, class, item, at)->Ok_0;
            &&& forall|k: int|
                0 <= k < exports.len() ==> {
                    let m = (#[trigger] exports[k]).member;
                    &&& exports[k].item == item
                    &&& m is Some
                    &&& at <= m->Some_0 < members.len()
                    &&& member_export(members[m->Some_0], class) == Ok::<Option<ExportView>, Seq<char>>(
                        Some(exports[k].export),
                    )
                }
            &&& forall|k: int, l: int|
                0 <= k < l < exports.len() ==> (#[trigger] exports[k]).member->Some_0 < (
                #[trigger] exports[l]).member->Some_0
            &&& forall|m: int|
                at <= m < members.len() && (#[trigger] members[m]) is Fn ==> exists|k: int|
                    0 <= k < exports.len() && (#[trigger] exports[k]).member == Some(m)
        }),
    decreases members.len() - at,
{
    if at < members.len() {
        lemma_member_exports(members, class, item, at + 1);
        let exports = member_exports(members, class, item, at)->Ok_0;
        let rest = member_exports(members, class, item, at + 1)->Ok_0;
        match member_export(members[at], class) {
            Ok(Some(export)) => {
                let one = ModExportView { item, member: Some(at), export };
                assert(exports == seq![one] + rest);
                assert(exports[0] == one);
                assert forall|k: int| 0 < k < exports.len() implies #[trigger] exports[k] == rest[k - 1] by {}
                assert forall|m: int| at <= m < members.len() && (#[trigger] members[m]) is Fn implies exists|k: int|
                    0 <= k < exports.len() && (#[trigger] exports[k]).member == Some(m) by {
                    if m == at {
                        assert(exports[0].member == Some(m));
                    } else {
                        let k = choose|k: int| 0 <= k < rest.len() && (#[trigger] rest[k]).member == Some(m);
                        assert(exports[k + 1].member == Some(m));
                    }
                }
            },
            _ => {
                assert(exports == rest);
            },
        }
    }
}

/// The exports of a module follow its items: each item's exports stand together
/// in the order of the source, nothing else is exported, and at most one
/// function is the shutdown function.
pub proof fn law_module_exports_follow_items(items: Seq<ModItemModel>, module: Seq<char>)
    requires
        mod_exports(items, module, 0, false) is Ok,
    ensures
        ({
            let exports = mod_exports(items, module, 0, false)->Ok_0;
            &&& forall|k: int|
                0 <= k < exports.len() ==> {
                    let i = (#[trigger] exports[k]).item;
                    &&& 0 <= i < items.len()
                    &&& mod_item_exports(items[i], module, i) is Ok
                    &&& mod_item_exports(items[i], module, i)->Ok_0.contains(exports[k])
                }
            &&& forall|k: int, l: int|
                0 <= k < l < exports.len() ==> (#[trigger] exports[k]).item <= (#[trigger] exports[l]).item
            &&& forall|i: int, e: ModExportView|
                0 <= i < items.len() && (#[trigger] mod_item_exports(items[i], module, i)->Ok_0.contains(e))
                    ==> exports.contains(e)
            &&& forall|k: int, l: int|
                0 <= k < l < exports.len() && (#[trigger] exports[k]).export is Shutdown ==> !((
                #[trigger] exports[l]).export is Shutdown)
        }),
{
    lemma_mod_exports(items, module, 0, false);
}

proof fn lemma_item_places(item: ModItemModel, module: Seq<char>, at: int)
    requires
        mod_item_exports(item, module, at) is Ok,
    ensures
        ({
            let own = mod_item_exports(item, module, at)->Ok_0;
            &&& forall|k: int| 0 <= k < own.len() ==> (#[trigger] own[k]).item == at
            &&& !is_shutdown_item(own) ==> forall|k: int| 0 <= k < own.len() ==> !((#[trigger] own[k]).export is Shutdown)
        }),
{
    match item {
        ModItemModel::Impl { attrs, is_trait_impl, self_name, members } => {
            if has_attr(attrs@, "monty_methods"@) {
                let class = full_class(module, self_name->Some_0@);
                lemma_member_exports(members@, class, at, 0);
            }
        },
        _ => {},
    }
}

proof fn lemma_mod_exports(items: Seq<ModItemModel>, module: Seq<char>, at: int, shutdown: bool)
    requires
        0 <= at <= items.len(),
        mod_exports(items, module, at, shutdown) is Ok,
    ensures
        ({
            let exports = mod_exports(items, module, at, shutdown)->Ok_0;
            &&& forall|k: int|
                0 <= k < exports.len() ==> {
                    let i = (#[trigger] exports[k]).item;
                    &&& at <= i < items.len()
                    &&& mod_item_exports(items[i], module, i) is Ok
                    &&& mod_item_exports(items[i], module, i)->Ok_0.contains(exports[k])
                }
            &&& forall|k: int, l: int|
                0 <= k < l < exports.len() ==> (#[trigger] exports[k]).item <= (#[trigger] exports[l]).item
            &&& forall|i: int, e: ModExportView|
                at <= i < items.len() && (#[trigger] mod_item_exports(items[i], module, i)->Ok_0.contains(e))
                    ==> exports.contains(e)
            &&& forall|k: int, l: int|
                0 <= k < l < exports.len() && (#[trigger] exports[k]).export is Shutdown ==> !((
                #[trigger] exports[l]).export is Shutdown)
            &&& shutdown ==> forall|k: int| 0 <= k < exports.len() ==> !((#[trigger] exports[k]).export is Shutdown)
        }),
    decreases items.len() - at,
{
    if at < items.len() {
        let own = mod_item_exports(items[at], module, at)->Ok_0;
        let seen = shutdown || is_shutdown_item(own);
        lemma_mod_exports(items, module, at + 1, seen);
        lemma_item_places(items[at], module, at);
        let rest = mod_exports(items, module, at + 1, seen)->Ok_0;
        let exports = mod_exports(items, module, at, shutdown)->Ok_0;
        assert(exports == own + rest);
        assert forall|k: int| 0 <= k < exports.len() implies #[trigger] exports[k] == if k < own.len() {
            own[k]
        } else {
            rest[k - own.len()]
        } by {}
        assert forall|k: int| 0 <= k < exports.len() implies {
            let i = (#[trigger] exports[k]).item;
            &&& at <= i < items.len()
            &&& mod_item_exports(items[i], module, i) is Ok
            &&& mod_item_exports(items[i], module, i)->Ok_0.contains(exports[k])
        } by {
            if k < own.len() {
                assert(own[k].item == at);
                assert(own.contains(own[k]));
            } else {
                assert(rest[k - own.len()] == exports[k]);
            }
        }
        assert forall|k: int, l: int| 0 <= k < l < exports.len() implies (#[trigger] exports[k]).item <= (
        #[trigger] exports[l]).item by {
            if k < own.len() && l < own.len() {
                assert(own[k].item == own[l].item);
            } else if l >= own.len() && k < own.len() {
                assert(rest[l - own.len()].item >= at + 1);
            } else {
                assert(rest[k - own.len()].item <= rest[l - own.len()].item);
            }
        }
        assert forall|i: int, e: ModExportView|
            at <= i < items.len() && (#[trigger] mod_item_exports(items[i], module, i)->Ok_0.contains(e)) implies exports.contains(
            e,
        ) by {
            if i == at {
                let k = choose|k: int| 0 <= k < own.len() && own[k] == e;
                assert(exports[k] == e);
            } else {
                assert(rest.contains(e));
                let k = choose|k: int| 0 <= k < rest.len() && rest[k] == e;
                assert(exports[own.len() + k] == e);
            }
        }
        assert forall|k: int, l: int| 0 <= k < l < exports.len() && (#[trigger] exports[k]).export is Shutdown implies !((
        #[trigger] exports[l]).export is Shutdown) by {
            if k < own.len() {
                assert(own[k].export is Shutdown);
                assert(is_shutdown_item(own));
                assert(l >= own.len());
                assert(!(rest[l - own.len()].export is Shutdown));
            } else {
                assert(rest[k - own.len()].export is Shutdown);
                assert(!(rest[l - own.len()].export is Shutdown));
            }
        }
    }
}

// ---------------------------------------------------------------------------
// What the table of an extension lists
// ---------------------------------------------------------------------------

/// The table lists the functions of one part of the exports and then those of
/// the next, each by the name it is exported under, and nothing else.
pub proof fn law_functions_are_listed_in_order(a: Seq<ExportView>, b: Seq<ExportView>, e: ExportView)
    ensures
        function_names(a + b) == function_names(a) + function_names(b),
        e is Function ==> function_names(seq![e]) == seq![e->Function_export_name],
        !(e is Function) ==> function_names(seq![e]).len() == 0,
{
    lemma_function_names_concat(a, b);
    lemma_function_names_one(e);
}

/// The names of the exported methods of one class, in order.
pub open spec fn methods_under(exports: Seq<ExportView>, key: Seq<char>) -> Seq<Seq<char>>
    decreases exports.len(),
{
    if exports.len() == 0 {
        Seq::empty()
    } else {
        let front = methods_under(exports.drop_last(), key);
        match exports.last() {
            Export::Method { export_name, handle, .. } => if class_key(handle) == key { front.push(export_name) } else { front },
            _ => front,
        }
    }
}

proof fn lemma_keyed_class(classes: Seq<ClassView>, key: Seq<char>, from: int)
    requires
        0 <= from,
    ensures
        match keyed_class(classes, key, from) {
            Some(c) => {
                &&& from <= c < classes.len()
                &&& classes[c].key == key
                &&& forall|d: int| from <= d < c ==> (#[trigger] classes[d]).key != key
            },
            None => forall|d: int| from <= d < classes.len() ==> (#[trigger] classes[d]).key != key,
        },
    decreases classes.len() - from,
{
    if from < classes.len() && classes[from].key != key {
        lemma_keyed_class(classes, key, from + 1);
    }
}

/// The table lists every class once, with all of its methods and no others, in
/// the order in which they are exported.
pub proof fn law_classes_list_their_methods(exports: Seq<ExportView>, inferred: Seq<(String, String)>)
    ensures
        ({
            let classes = method_classes(exports, inferred);
            &&& forall|c: int|
                0 <= c < classes.len() ==> (#[trigger] classes[c]).methods == methods_under(exports, classes[c].key)
                    && classes[c].methods.len() > 0
            &&& forall|c: int, d: int|
                0 <= c < d < classes.len() ==> (#[trigger] classes[c]).key != (#[trigger] classes[d]).key
            &&& forall|k: int|
                0 <= k < exports.len() && (#[trigger] exports[k]) is Method ==> exists|c: int|
                    {
                        &&& 0 <= c < classes.len()
                        &&& (#[trigger] classes[c]).key == class_key(exports[k]->handle)
                        &&& classes[c].class == class_of(exports[k]->handle, inferred)
                    }
        }),
        forall|key: Seq<char>|
            (forall|c: int| 0 <= c < method_classes(exports, inferred).len() ==> (#[trigger] method_classes(
                exports,
                inferred,
            )[c]).key != key) ==> (#[trigger] methods_under(exports, key)).len() == 0,
        forall|c: int|
            0 <= c < method_classes(exports, inferred).len() ==> exists|h: HandleSource<Seq<char>>|
                (#[trigger] method_classes(exports, inferred)[c]).key == #[trigger] class_key(h) && method_classes(
                    exports,
                    inferred,
                )[c].class == class_of(h, inferred),
    decreases exports.len(),
{
    if exports.len() > 0 {
        let before = exports.drop_last();
        let old_classes = method_classes(before, inferred);
        let classes = method_classes(exports, inferred);
        law_classes_list_their_methods(before, inferred);
        let last = exports.len() - 1;
        assert forall|k: int| 0 <= k < last implies #[trigger] exports[k] == before[k] by {}
        match exports.last() {
            Export::Method { export_name, handle, .. } => {
                let key = class_key(handle);
                lemma_keyed_class(old_classes, key, 0);
                let at = match keyed_class(old_classes, key, 0) {
                    Some(c) => c,
                    None => old_classes.len() as int,
                };
                if keyed_class(old_classes, key, 0) is Some {
                    let h = choose|h: HandleSource<Seq<char>>|
                        old_classes[at].key == #[trigger] class_key(h) && old_classes[at].class == class_of(h, inferred);
                    lemma_class_of_key(h, handle, inferred);
                } else {
                    assert(methods_under(before, key).len() == 0);
                    assert(methods_under(before, key) =~= Seq::<Seq<char>>::empty());
                    assert(methods_under(exports, key) =~= seq![export_name]);
                }
                assert(classes[at].key == key);
                assert(classes[at].class == class_of(handle, inferred));
                assert(classes[at].methods == methods_under(exports, key));
                assert forall|c: int| 0 <= c < classes.len() && c != at implies #[trigger] classes[c] == old_classes[c]
                    && classes[c].key != key by {}
                assert forall|k: int| 0 <= k < exports.len() && (#[trigger] exports[k]) is Method implies exists|c: int|
                    {
                        &&& 0 <= c < classes.len()
                        &&& (#[trigger] classes[c]).key == class_key(exports[k]->handle)
                        &&& classes[c].class == class_of(exports[k]->handle, inferred)
                    } by {
                    if k < last {
                        let c = choose|c: int|
                            {
                                &&& 0 <= c < old_classes.len()
                                &&& (#[trigger] old_classes[c]).key == class_key(before[k]->handle)
                                &&& old_classes[c].class == class_of(before[k]->handle, inferred)
                            };
                        assert(classes[c].key == old_classes[c].key && classes[c].class == old_classes[c].class);
                    } else {
                        assert(classes[at].key == class_key(exports[k]->handle));
                    }
                }
                assert forall|c: int| 0 <= c < classes.len() implies exists|h: HandleSource<Seq<char>>|
                    (#[trigger] classes[c]).key == #[trigger] class_key(h) && classes[c].class == class_of(h, inferred) by {
                    if c == at {
                        assert(classes[c].key == class_key(handle));
                    } else {
                        assert(classes[c] == old_classes[c]);
                    }
                }
                assert forall|other: Seq<char>|
                    (forall|c: int| 0 <= c < classes.len() ==> (#[trigger] classes[c]).key != other) implies (
                #[trigger] methods_under(exports, other)).len() == 0 by {
                    assert(classes[at].key != other);
                    assert forall|c: int| 0 <= c < old_classes.len() implies (#[trigger] old_classes[c]).key != other by {
                        assert(classes[c].key == old_classes[c].key);
                    }
                    assert(methods_under(before, other).len() == 0);
                }
            },
            _ => {
                assert(classes == old_classes);
                assert forall|other: Seq<char>| #[trigger] methods_under(exports, other) == methods_under(before, other) by {}
            },
        }
    }
}

proof fn lemma_class_of_key(a: HandleSource<Seq<char>>, b: HandleSource<Seq<char>>, inferred: Seq<(String, String)>)
    requires
        class_key(a) == class_key(b),
    ensures
        class_of(a, inferred) == class_of(b, inferred),
{
    reveal_strlit("=");
    reveal_strlit("<");
    match (a, b) {
        (HandleSource::Explicit(x), HandleSource::Explicit(y)) => {
            assert(("="@ + x).skip(1) =~= x);
            assert(("="@ + y).skip(1) =~= y);
        },
        (HandleSource::Inferred(_, x), HandleSource::Inferred(_, y)) => {
            assert(("<"@ + x).skip(1) =~= x);
            assert(("<"@ + y).skip(1) =~= y);
        },
        (HandleSource::Explicit(x), HandleSource::Inferred(i, y)) => {
            law_given_and_inferred_classes_differ(x, i, y);
        },
        (HandleSource::Inferred(i, x), HandleSource::Explicit(y)) => {
            law_given_and_inferred_classes_differ(y, i, x);
        },
    }
}

/// The class of a type is the first that is given for it.
pub proof fn law_first_class_given_for_a_type_counts(inferred: Seq<(String, String)>, ty: Seq<char>, at: usize, i: int)
    requires
        0 <= i < inferred.len(),
        inferred[i].0@ == ty,
        forall|j: int| 0 <= j < i ==> (#[trigger] inferred[j]).0@ != ty,
    ensures
        class_of(HandleSource::Inferred(at, ty), inferred) == inferred[i].1@,
        class_of(HandleSource::Explicit(ty), inferred) == ty,
    decreases inferred.len(),
{
    if i > 0 {
        let rest = inferred.skip(1);
        assert(inferred[0].0@ != ty);
        assert(rest[i - 1] == inferred[i]);
        assert forall|j: int| 0 <= j < i - 1 implies (#[trigger] rest[j]).0@ != ty by {
            assert(rest[j] == inferred[j + 1]);
        }
        law_first_class_given_for_a_type_counts(rest, ty, at, i - 1);
    }
}

/// A type that no class is given for goes by its own name, and a class that an
/// attribute gives is taken as it is.
pub proof fn law_other_types_are_their_own_class(inferred: Seq<(String, String)>, ty: Seq<char>, at: usize)
    requires
        forall|j: int| 0 <= j < inferred.len() ==> (#[trigger] inferred[j]).0@ != ty,
    ensures
        class_of(HandleSource::Inferred(at, ty), inferred) == ty,
        class_of(HandleSource::Explicit(ty), inferred) == ty,
    decreases inferred.len(),
{
    if inferred.len() > 0 {
        let rest = inferred.skip(1);
        assert(inferred[0].0@ != ty);
        assert forall|j: int| 0 <= j < rest.len() implies (#[trigger] rest[j]).0@ != ty by {
            assert(rest[j] == inferred[j + 1]);
        }
        law_other_types_are_their_own_class(rest, ty, at);
    }
}

/// The method table of a class has its full name, what stands behind the last
/// dot of that, and its methods.
pub proof fn law_tables_carry_their_class(table: MethodTable, c: ClassView)
    requires
        tables_class(table, c),
    ensures
        table.class@ == c.class,
        table.short_name@ == short_name(c.class),
        table.methods@.len() == c.methods.len(),
        forall|i: int| 0 <= i < c.methods.len() ==> (#[trigger] table.methods@[i])@ == c.methods[i],
{
    assert(views(table.methods@).len() == c.methods.len());
    assert forall|i: int| 0 <= i < c.methods.len() implies (#[trigger] table.methods@[i])@ == c.methods[i] by {
        assert(views(table.methods@)[i] == c.methods[i]);
    }
}

/// Only a variant with one unnamed field can hold a stored object, and the
/// first that cannot is the one reported.
pub proof fn law_first_unstorable_variant_is_reported(variants: Seq<VariantModel>, from: int)
    requires
        0 <= from,
    ensures
        match first_unstorable(variants, from) {
            Some(i) => {
                &&& from <= i < variants.len()
                &&& variants[i].fields != Some(1usize)
                &&& forall|j: int| from <= j < i ==> (#[trigger] variants[j]).fields == Some(1usize)
            },
            None => forall|j: int| from <= j < variants.len() ==> (#[trigger] variants[j]).fields == Some(1usize),
        },
    decreases variants.len() - from,
{
    if from < variants.len() && variants[from].fields == Some(1usize) {
        law_first_unstorable_variant_is_reported(variants, from + 1);
    }
}

/// An export carries its texts and its plans as they are.
pub proof fn law_exports_carry_their_parts(e: Export<String, Vec<ArgPlan>>)
    ensures
        e is Class <==> export_view(e) is Class,
        e is Shutdown <==> export_view(e) is Shutdown,
        e is Function <==> export_view(e) is Function,
        e is Function ==> export_view(e)->Function_export_name == e->Function_export_name@ && export_view(
            e,
        )->Function_args == e->Function_args@,
        e is Method ==> export_view(e) is Method && export_view(e)->Method_export_name == e->Method_export_name@
            && export_view(e)->Method_args == e->Method_args@ && export_view(e)->handle == source_view(e->handle),
{
}

/// A signature that cannot be exported is refused for what is wrong with it,
/// in the words of its place.
pub proof fn law_refused_signatures_say_why(sig: SigModel)
    ensures
        sig.is_async ==> method_sig_error(sig) == Some("async extension exports are not supported"@) && mod_sig_error(sig)
            == Some("async extension functions are not supported"@),
        !sig.is_async && sig.is_generic ==> method_sig_error(sig) == Some(
            "generic extension exports are not supported"@,
        ) && mod_sig_error(sig) == Some("generic extension functions are not supported"@),
        !sig.is_async && !sig.is_generic && !(sig.receiver is SharedRef) ==> method_sig_error(sig) == Some(
            "exported extension methods must take &self"@,
        ),
        !sig.is_async && !sig.is_generic && !(sig.receiver is Absent) ==> mod_sig_error(sig) == Some(
            "module-level functions should take `ext: &Extension`, not `&self`"@,
        ),
        !sig.is_async && !sig.is_generic && sig.receiver is Absent && !sig.has_inputs ==> mod_sig_error(sig) == Some(
            "module-level functions must take `ext: &Extension` as the first parameter"@,
        ),
{
}

/// An attribute with another argument is refused for that before anything else
/// that is wrong with it.
pub proof fn law_refused_attributes_say_why(attr: AttrModel, i: int)
    requires
        0 <= i < attr.entries@.len(),
    ensures
        attr.entries@[i].0@ != "name"@ ==> function_attr(attr) == Err::<FunctionAttr, Seq<char>>(
            "unsupported #[function(...)] argument"@,
        ),
        attr.entries@[i].0@ != "name"@ && attr.entries@[i].0@ != "handle"@ ==> method_attr(attr) == Err::<
            MethodAttr,
            Seq<char>,
        >("unsupported #[method(...)] argument"@),
        function_attr(attr) is Err && keys_within(attr.entries@, "name"@, "name"@) ==> attr.parse_error is Some
            && function_attr(attr)->Err_0 == attr.parse_error->Some_0@,
        method_attr(attr) is Err && keys_within(attr.entries@, "name"@, "handle"@) ==> attr.parse_error is Some
            && method_attr(attr)->Err_0 == attr.parse_error->Some_0@,
{
}

/// The markers of a module's items go by their names.
pub proof fn law_markers_go_by_name(attr: AttrModel)
    ensures
        is_wanted(Wanted::Named(Marker::Class), attr) <==> attr.name@ == "monty_class"@,
        is_wanted(Wanted::Named(Marker::Methods), attr) <==> attr.name@ == "monty_methods"@,
{
}

/// A variant that cannot hold a stored object is refused for its fields.
pub proof fn law_refused_variants_say_why(v: VariantModel)
    ensures
        storable(v) <==> v.fields == Some(1usize),
        v.fields is None ==> variant_error(v)
            == "#[monty_handles] variants must be tuple variants with exactly one field"@,
        v.fields is Some ==> variant_error(v) == "#[monty_handles] variants must contain exactly one field"@,
{
}

/// Two methods are of one class exactly where both name it in the same way, by
/// its name or by the type of their handle, and the names are the same.
pub proof fn law_methods_are_grouped_by_class(handles: Seq<HandleSource<String>>, i: int, j: int)
    requires
        0 <= i < handles.len(),
        0 <= j < handles.len(),
    ensures
        class_keys(handles).len() == handles.len(),
        class_keys(handles)[i] == class_keys(handles)[j] <==> match (handles[i], handles[j]) {
            (HandleSource::Explicit(a), HandleSource::Explicit(b)) => a@ == b@,
            (HandleSource::Inferred(_, a), HandleSource::Inferred(_, b)) => a@ == b@,
            _ => false,
        },
{
    reveal_strlit("=");
    reveal_strlit("<");
    match (handles[i], handles[j]) {
        (HandleSource::Explicit(a), HandleSource::Explicit(b)) => {
            assert(("="@ + a@).skip(1) =~= a@);
            assert(("="@ + b@).skip(1) =~= b@);
        },
        (HandleSource::Inferred(_, a), HandleSource::Inferred(_, b)) => {
            assert(("<"@ + a@).skip(1) =~= a@);
            assert(("<"@ + b@).skip(1) =~= b@);
        },
        (HandleSource::Explicit(a), HandleSource::Inferred(k, b)) => {
            law_given_and_inferred_classes_differ(a@, k, b@);
        },
        (HandleSource::Inferred(k, a), HandleSource::Explicit(b)) => {
            law_given_and_inferred_classes_differ(b@, k, a@);
        },
    }
}

/// Exports keep their places: each has the index of its item, and the exports of
/// a table are those of the items in the same order.
pub proof fn law_exports_keep_their_places(
    exports: Seq<(usize, Export<String, Vec<ArgPlan>>)>,
    places: Seq<ModExport>,
    plain: Seq<Export<String, Vec<ArgPlan>>>,
)
    ensures
        exports_view(exports).len() == exports.len(),
        forall|i: int|
            0 <= i < exports.len() ==> (#[trigger] exports_view(exports)[i]).0 == exports[i].0 && exports_view(exports)[i].1
                == export_view(exports[i].1),
        mod_exports_view(places).len() == places.len(),
        forall|i: int|
            0 <= i < places.len() ==> (#[trigger] mod_exports_view(places)[i]).item == places[i].item && mod_exports_view(
                places,
            )[i].export == export_view(places[i].export) && (mod_exports_view(places)[i].member is Some
                <==> places[i].member is Some) && (places[i].member is Some ==> mod_exports_view(
                places,
            )[i].member->Some_0 == places[i].member->Some_0),
        plain_exports(plain).len() == plain.len(),
        forall|i: int| 0 <= i < plain.len() ==> #[trigger] plain_exports(plain)[i] == export_view(plain[i]),
        without_items(exports_view(exports)).len() == exports.len(),
        forall|i: int|
            0 <= i < exports.len() ==> #[trigger] without_items(exports_view(exports))[i] == export_view(exports[i].1),
        without_places(mod_exports_view(places)).len() == places.len(),
        forall|i: int|
            0 <= i < places.len() ==> #[trigger] without_places(mod_exports_view(places))[i] == export_view(
                places[i].export,
            ),
{
}

/// The method tables of an extension are those of its classes, one for each and
/// in the same order.
pub proof fn law_tables_follow_classes(tables: Seq<MethodTable>, classes: Seq<ClassView>, c: int)
    requires
        tables_classes(tables, classes),
        0 <= c < classes.len(),
    ensures
        tables.len() == classes.len(),
        tables[c].class@ == classes[c].class,
        tables[c].short_name@ == short_name(classes[c].class),
        views(tables[c].methods@) == classes[c].methods,
{
    assert(tables_class(tables[c], classes[c]));
}

} // verus!
