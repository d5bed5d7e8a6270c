//! What an extension does at run time: it finds the function or method that a
//! call names, and it keeps the objects that handles stand for.

use crate::ext_api::{
    rstring, rstring_from, rstring_str, rtext, ExtError, ExtFunctionDecl, ExtHandle, ExtManifest, ExtValue, FromExtValue,
};
use crate::text::{
    cat3, chars_of, join, law_split_and_join_are_inverse, lemma_split_push, same, split, split_chars, string_of, views,
};
use std::collections::HashMap;
use vstd::prelude::*;

verus! {

broadcast use vstd::std_specs::hash::group_hash_axioms;

// ---------------------------------------------------------------------------
// Dispatch
// ---------------------------------------------------------------------------

/// The methods of one class.
pub struct MethodTable {
    /// Full name of the class, such as `"polars.DataFrame"`.
    pub class: String,
    /// Name of the class used in errors.
    pub short_name: String,
    /// Names of its methods.
    pub methods: Vec<String>,
}

/// What an extension exports.
pub struct ExportTable {
    pub module_name: String,
    pub functions: Vec<String>,
    pub classes: Vec<MethodTable>,
}

/// Index of the first name that equals `name`.
pub open spec fn position(names: Seq<Seq<char>>, name: Seq<char>) -> Option<int>
    decreases names.len(),
{
    if names.len() == 0 {
        None
    } else if names[0] == name {
        Some(0)
    } else {
        match position(names.skip(1), name) {
            Some(i) => Some(i + 1),
            None => None,
        }
    }
}

/// A found position is the first with that name; nothing is found only where
/// no name matches.
pub proof fn lemma_position(names: Seq<Seq<char>>, name: Seq<char>)
    ensures
        match position(names, name) {
            Some(i) => {
                &&& 0 <= i < names.len()
                &&& names[i] == name
                &&& forall|j: int| 0 <= j < i ==> names[j] != name
            },
            None => forall|j: int| 0 <= j < names.len() ==> names[j] != name,
        },
    decreases names.len(),
{
    if names.len() > 0 && names[0] != name {
        lemma_position(names.skip(1), name);
        match position(names.skip(1), name) {
            Some(i) => {
                assert(names.skip(1)[i] == names[i + 1]);
                assert forall|j: int| 0 <= j < i + 1 implies names[j] != name by {
                    if j > 0 {
                        assert(names.skip(1)[j - 1] == names[j]);
                    }
                }
            },
            None => {
                assert forall|j: int| 0 <= j < names.len() implies names[j] != name by {
                    if j > 0 {
                        assert(names.skip(1)[j - 1] == names[j]);
                    }
                }
            },
        }
    }
}

fn find(names: &Vec<String>, name: &str) -> (r: Option<usize>)
    ensures
        match position(views(names@), name@) {
            Some(i) => r is Some && r->Some_0 == i && 0 <= i < names@.len(),
            None => r is None,
        },
{
    let ghost all = views(names@);
    let mut i: usize = 0;
    proof {
        lemma_position(all, name@);
    }
    while i < names.len()
        invariant
            i <= names@.len(),
            all == views(names@),
            forall|j: int| 0 <= j < i ==> all[j] != name@,
            match position(all, name@) {
                Some(k) => 0 <= k < all.len() && all[k] == name@ && forall|j: int| 0 <= j < k ==> all[j] != name@,
                None => forall|j: int| 0 <= j < all.len() ==> all[j] != name@,
            },
        decreases names@.len() - i,
    {
        proof {
            assert(all[i as int] == names@[i as int]@);
        }
        if same(names[i].as_str(), name) {
            return Some(i);
        }
        i = i + 1;
    }
    None
}

/// The part of a type's name behind the last dot.
pub open spec fn short_name(full: Seq<char>) -> Seq<char> {
    split(full, '.').last()
}

/// The part of a type's name behind the last dot; all of it without a dot.
pub fn short_type_name(full: &str) -> (r: String)
    ensures
        r@ == short_name(full@),
{
    let chars: Vec<char> = chars_of(full);
    let parts: Vec<Vec<char>> = split_chars(chars.as_slice(), '.');
    proof {
        assert(split(full@, '.').last() == parts@[parts@.len() - 1]@);
    }
    string_of(parts[parts.len() - 1].as_slice())
}

/// Full names of the classes.
pub open spec fn class_names(classes: Seq<MethodTable>) -> Seq<Seq<char>> {
    classes.map_values(|c: MethodTable| c.class@)
}

impl ExportTable {
    /// The manifest of the extension: its functions in order, all native.
    pub fn manifest(&self, version: &str, skill: &str, stubs: Option<String>) -> (r: ExtManifest)
        ensures
            rtext(r.module_name) == self.module_name@,
            rtext(r.version) == version@,
            rtext(r.skill) == skill@,
            r.type_stub_source is Some <==> stubs is Some,
            stubs is Some ==> rtext(r.type_stub_source->Some_0) == stubs->Some_0@,
            r.functions@.len() == self.functions@.len(),
            forall|i: int|
                0 <= i < r.functions@.len() ==> rtext((#[trigger] r.functions@[i]).name) == self.functions@[i]@
                    && r.functions@[i].is_native,
    {
        let mut functions: Vec<ExtFunctionDecl> = Vec::new();
        let mut i: usize = 0;
        while i < self.functions.len()
            invariant
                i <= self.functions@.len(),
                functions@.len() == i,
                forall|j: int|
                    0 <= j < i ==> rtext((#[trigger] functions@[j]).name) == self.functions@[j]@
                        && functions@[j].is_native,
            decreases self.functions@.len() - i,
        {
            functions.push(ExtFunctionDecl { name: rstring(self.functions[i].as_str()), is_native: true });
            i = i + 1;
        }
        ExtManifest {
            module_name: rstring(self.module_name.as_str()),
            functions,
            type_stub_source: match stubs {
                Some(stubs) => Some(rstring_from(stubs)),
                None => None,
            },
            skill: rstring(skill),
            version: rstring(version),
        }
    }

    /// Which function a call names.
    pub fn resolve_call(&self, function_name: &str) -> (r: Result<usize, ExtError>)
        ensures
            match position(views(self.functions@), function_name@) {
                Some(i) => r is Ok && r->Ok_0 == i && 0 <= i < self.functions@.len(),
                None => r is Err && r->Err_0.is_unknown_function(self.module_name@, function_name@),
            },
    {
        match find(&self.functions, function_name) {
            Some(i) => Ok(i),
            None => Err(ExtError::unknown_function(self.module_name.as_str(), function_name)),
        }
    }

    /// Which class and method a method call names. A class without the method
    /// and a class that is not known are both missing attributes.
    pub fn resolve_method(&self, handle: &ExtHandle, method: &str) -> (r: Result<(usize, usize), ExtError>)
        ensures
            match position(class_names(self.classes@), rtext(handle.handle_type)) {
                None => r is Err && r->Err_0.is_attribute_error(short_name(rtext(handle.handle_type)), method@),
                Some(c) => {
                    &&& 0 <= c < self.classes@.len()
                    &&& match position(views(self.classes@[c].methods@), method@) {
                        None => r is Err && r->Err_0.is_attribute_error(self.classes@[c].short_name@, method@),
                        Some(m) => {
                            &&& r is Ok && r->Ok_0.0 == c && r->Ok_0.1 == m
                            &&& 0 <= m < self.classes@[c].methods@.len()
                        },
                    }
                },
            },
    {
        let full: &str = rstring_str(&handle.handle_type);
        let ghost names = class_names(self.classes@);
        proof {
            lemma_position(names, full@);
        }
        let mut c: usize = 0;
        while c < self.classes.len()
            invariant
                c <= self.classes@.len(),
                names == class_names(self.classes@),
                full@ == rtext(handle.handle_type),
                forall|j: int| 0 <= j < c ==> names[j] != full@,
                match position(names, full@) {
                    Some(k) => 0 <= k < names.len() && names[k] == full@ && forall|j: int|
                        0 <= j < k ==> names[j] != full@,
                    None => forall|j: int| 0 <= j < names.len() ==> names[j] != full@,
                },
            decreases self.classes@.len() - c,
        {
            proof {
                assert(names[c as int] == self.classes@[c as int].class@);
            }
            if same(self.classes[c].class.as_str(), full) {
                return match find(&self.classes[c].methods, method) {
                    Some(m) => Ok((c, m)),
                    None => Err(ExtError::attribute_error(self.classes[c].short_name.as_str(), method)),
                };
            }
            c = c + 1;
        }
        Err(ExtError::attribute_error(short_type_name(full).as_str(), method))
    }
}

// ---------------------------------------------------------------------------
// Handles
// ---------------------------------------------------------------------------

/// The class of a typed handle.
pub struct HandleClass {
    /// Full name, such as `"polars.DataFrame"`.
    pub full_name: String,
    /// Name used in errors about the object.
    pub short_name: String,
    /// Name of the extension.
    pub extension_id: String,
}

impl HandleClass {
    /// Reads a handle of this class from an argument.
    pub fn from_ext_value(&self, value: &ExtValue, function_name: &str, parameter_name: &str) -> (r: Result<
        ExtHandle,
        ExtError,
    >)
        ensures
            r is Ok <==> value is Handle && rtext(value->Handle_0.handle_type) == self.full_name@,
            r is Ok ==> r->Ok_0.same_handle(value->Handle_0),
            r is Err ==> r->Err_0.is_argument_type(
                function_name@,
                parameter_name@,
                if value is Handle { "a "@ + self.full_name@ + " handle"@ } else { "a handle"@ },
            ),
    {
        let handle: ExtHandle = match <ExtHandle as FromExtValue>::from_ext_value(value, function_name, parameter_name) {
            Err(err) => return Err(err),
            Ok(handle) => handle,
        };
        if !same(rstring_str(&handle.handle_type), self.full_name.as_str()) {
            return Err(
                ExtError::argument_type(
                    function_name,
                    parameter_name,
                    cat3("a ", self.full_name.as_str(), " handle").as_str(),
                ),
            );
        }
        Ok(handle)
    }

    /// A handle of this class.
    pub fn handle(&self, handle_id: u64) -> (r: ExtHandle)
        ensures
            rtext(r.handle_type) == self.full_name@,
            r.handle_id == handle_id,
            rtext(r.extension_id) == self.extension_id@,
    {
        ExtHandle::new(self.full_name.as_str(), handle_id, self.extension_id.as_str())
    }
}

/// An object with the class it was stored under.
pub struct Stored<T> {
    /// Number of the class.
    pub class: usize,
    pub value: T,
}

/// The objects of an extension, by handle id.
pub struct HandleStore<T> {
    objects: HashMap<u64, Stored<T>>,
    next_id: u64,
}

impl<T> View for HandleStore<T> {
    type V = Map<u64, Stored<T>>;

    closed spec fn view(&self) -> Map<u64, Stored<T>> {
        self.objects@
    }
}

impl<T> HandleStore<T> {
    /// The id that the next object gets.
    pub closed spec fn next(self) -> u64 {
        self.next_id
    }

    /// Every id in use was handed out before.
    pub open spec fn wf(self) -> bool {
        forall|id: u64| #[trigger] self@.contains_key(id) ==> id < self.next()
    }

    /// The object that a handle of a class stands for.
    pub open spec fn object(self, class: usize, handle_id: u64) -> Option<T> {
        if self@.contains_key(handle_id) && self@[handle_id].class == class {
            Some(self@[handle_id].value)
        } else {
            None
        }
    }

    /// An empty store; ids start at one.
    pub fn new() -> (r: HandleStore<T>)
        ensures
            r.wf(),
            r@ == Map::<u64, Stored<T>>::empty(),
            r.next() == 1,
    {
        HandleStore { objects: HashMap::new(), next_id: 1 }
    }

    /// Stores a new object and returns its id, which no stored object has had.
    pub fn store(&mut self, class: usize, value: T) -> (id: u64)
        requires
            old(self).wf(),
            old(self).next() < u64::MAX,
        ensures
            final(self).wf(),
            id == old(self).next(),
            !old(self)@.contains_key(id),
            final(self)@ == old(self)@.insert(id, Stored { class, value }),
            final(self).next() == old(self).next() + 1,
    {
        let id: u64 = self.next_id;
        self.next_id = self.next_id + 1;
        self.objects.insert(id, Stored { class, value });
        proof {
            assert forall|k: u64| #[trigger] self@.contains_key(k) implies k < self.next() by {
                if k != id {
                    assert(old(self)@.contains_key(k));
                }
            }
        }
        id
    }

    /// Whether another object can be stored.
    pub fn has_room(&self) -> (r: bool)
        ensures
            r == (self.next() < u64::MAX),
    {
        self.next_id < 0xffff_ffff_ffff_ffff
    }

    /// Borrows the object that a handle of a class stands for.
    pub fn borrow_object(&self, class: usize, handle_id: u64, function_name: &str, short_name: &str) -> (r: Result<
        &T,
        ExtError,
    >)
        ensures
            match self.object(class, handle_id) {
                Some(value) => r is Ok && *r->Ok_0 == value,
                None => r is Err && r->Err_0.is_invalid_handle(function_name@, short_name@, handle_id),
            },
    {
        match self.objects.get(&handle_id) {
            Some(stored) => {
                if stored.class == class {
                    Ok(&stored.value)
                } else {
                    Err(ExtError::invalid_handle(function_name, short_name, handle_id))
                }
            },
            None => Err(ExtError::invalid_handle(function_name, short_name, handle_id)),
        }
    }

    /// Takes the object that a handle of a class stands for, to be changed and
    /// put back.
    pub fn take_object(&mut self, class: usize, handle_id: u64, function_name: &str, short_name: &str) -> (r: Result<
        T,
        ExtError,
    >)
        requires
            old(self).wf(),
        ensures
            final(self).wf(),
            final(self).next() == old(self).next(),
            match old(self).object(class, handle_id) {
                Some(value) => r == Ok::<T, ExtError>(value) && final(self)@ == old(self)@.remove(handle_id),
                None => {
                    &&& r is Err
                    &&& r->Err_0.is_invalid_handle(function_name@, short_name@, handle_id)
                    &&& final(self)@ == old(self)@
                },
            },
    {
        let matches: bool = match self.objects.get(&handle_id) {
            Some(stored) => stored.class == class,
            None => false,
        };
        if !matches {
            return Err(ExtError::invalid_handle(function_name, short_name, handle_id));
        }
        match self.objects.remove(&handle_id) {
            Some(stored) => Ok(stored.value),
            None => Err(ExtError::invalid_handle(function_name, short_name, handle_id)),
        }
    }

    /// Puts an object back under the id it was taken from.
    pub fn put_back(&mut self, class: usize, handle_id: u64, value: T)
        requires
            old(self).wf(),
            handle_id < old(self).next(),
        ensures
            final(self).wf(),
            final(self).next() == old(self).next(),
            final(self)@ == old(self)@.insert(handle_id, Stored { class, value }),
    {
        self.objects.insert(handle_id, Stored { class, value });
        proof {
            assert forall|k: u64| #[trigger] self@.contains_key(k) implies k < self.next() by {
                if k != handle_id {
                    assert(old(self)@.contains_key(k));
                }
            }
        }
    }

    /// How many objects are stored.
    pub fn len(&self) -> (r: usize)
        ensures
            r == self@.len(),
    {
        self.objects.len()
    }

    /// Forgets every object; ids are not handed out again.
    pub fn clear(&mut self)
        requires
            old(self).wf(),
        ensures
            final(self).wf(),
            final(self)@ == Map::<u64, Stored<T>>::empty(),
            final(self).next() == old(self).next(),
    {
        self.objects.clear();
    }
}

/// What is stored under a handle can be borrowed with it, and storing more
/// objects does not change that.
pub proof fn law_stored_objects_stay<T>(before: Map<u64, Stored<T>>, next: u64, class: usize, value: T, other: Stored<T>)
    requires
        forall|id: u64| #[trigger] before.contains_key(id) ==> id < next,
        next < u64::MAX,
    ensures
        ({
            let one = before.insert(next, Stored { class, value });
            let two = one.insert((next + 1) as u64, other);
            &&& one[next].class == class && one[next].value == value
            &&& two[next] == one[next]
            &&& forall|id: u64| #[trigger] before.contains_key(id) ==> one[id] == before[id]
        }),
{
}

/// An object that is taken and put back unchanged leaves the store as it was.
pub proof fn law_take_and_put_back<T>(before: Map<u64, Stored<T>>, id: u64)
    requires
        before.contains_key(id),
    ensures
        before.remove(id).insert(id, before[id]) == before,
{
    assert(before.remove(id).insert(id, before[id]) =~= before);
}

/// A handle reaches an object exactly where one is stored under its id for its
/// class; that object is then the one stored there.
pub proof fn law_handles_reach_objects_of_their_class<T>(store: HandleStore<T>, class: usize, id: u64)
    ensures
        store.object(class, id) is Some <==> store@.contains_key(id) && store@[id].class == class,
        store.object(class, id) is Some ==> store.object(class, id)->Some_0 == store@[id].value,
{
}

/// The short name of a type is what stands behind its last dot, and all of its
/// name where there is no dot.
pub proof fn law_short_names_stand_behind_the_last_dot(front: Seq<char>, name: Seq<char>)
    requires
        !name.contains('.'),
    ensures
        short_name(front.push('.') + name) == name,
        short_name(name) == name,
{
    lemma_split_push(front, name, '.');
    let one = seq![name];
    law_split_and_join_are_inverse(name, one, '.');
    assert(one[0] == name);
    assert(join(one, seq!['.']) == name);
}

/// A call by name reaches the first entry of that name; it fails only where
/// there is none.
pub proof fn law_first_entry_of_a_name_is_found(names: Seq<Seq<char>>, name: Seq<char>, i: int)
    requires
        0 <= i < names.len(),
        names[i] == name,
        forall|j: int| 0 <= j < i ==> names[j] != name,
    ensures
        position(names, name) == Some(i),
{
    lemma_position(names, name);
}

/// Classes are found by their full names, each under its own index.
pub proof fn law_classes_go_by_full_name(classes: Seq<MethodTable>, i: int)
    requires
        0 <= i < classes.len(),
        forall|j: int| 0 <= j < i ==> (#[trigger] classes[j]).class@ != classes[i].class@,
    ensures
        position(class_names(classes), classes[i].class@) == Some(i),
{
    lemma_position(class_names(classes), classes[i].class@);
    assert(class_names(classes)[i] == classes[i].class@);
    assert forall|j: int| 0 <= j < i implies class_names(classes)[j] != classes[i].class@ by {
        assert(classes[j].class@ != classes[i].class@);
    }
}

} // verus!
