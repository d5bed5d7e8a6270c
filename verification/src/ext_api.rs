//! Values, arguments and errors that cross the boundary to native extensions.
//!
//! Texts and lists are `abi_stable`'s `RString` and `RVec`, whose layout does
//! not change between compilers.

use crate::text::{cat2, cat3, cat4, cat5, decimal, decimal_of, same};
use abi_stable::std_types::{RString, RVec};
use vstd::prelude::*;
use vstd::string::*;

verus! {

/// Current extension API version used for compatibility checks.
pub const API_VERSION: u32 = 1;

// ---------------------------------------------------------------------------
// Texts and lists with a fixed layout
// ---------------------------------------------------------------------------

/// `abi_stable::std_types::RString`.
#[verifier::external_type_specification]
#[verifier::external_body]
pub struct ExRString(abi_stable::std_types::RString);

/// The characters of a text.
pub uninterp spec fn rtext(s: RString) -> Seq<char>;

/// `RString::from(String)` keeps the characters.
#[verifier::external_body]
pub(crate) fn rstring_from(s: String) -> (r: RString)
    ensures
        rtext(r) == s@,
{
    RString::from(s)
}

/// `RString::as_str` gives the characters.
#[verifier::external_body]
pub(crate) fn rstring_str(s: &RString) -> (r: &str)
    ensures
        r@ == rtext(*s),
{
    s.as_str()
}

/// A text from a string slice.
pub fn rstring(s: &str) -> (r: RString)
    ensures
        rtext(r) == s@,
{
    rstring_from(s.to_owned())
}

/// A list of values, held in an `RVec`.
#[verifier::external_body]
#[derive(Debug)]
pub struct ExtList {
    inner: RVec<ExtValue>,
}

/// The pairs of a dict or of keyword arguments, held in an `RVec`.
#[verifier::external_body]
#[derive(Debug)]
pub struct ExtDict {
    inner: RVec<ExtKeyValue>,
}

/// `abi_stable::std_types::RVec`.
#[verifier::external_type_specification]
#[verifier::external_body]
#[verifier::reject_recursive_types(T)]
pub struct ExRVec<T>(abi_stable::std_types::RVec<T>);

/// The values of a list.
pub uninterp spec fn list_items(l: ExtList) -> Seq<ExtValue>;

/// The pairs of a dict.
pub uninterp spec fn dict_pairs(d: ExtDict) -> Seq<ExtKeyValue>;

/// The bytes of a byte string.
pub uninterp spec fn byte_items(b: RVec<u8>) -> Seq<u8>;

impl ExtList {
    /// `RVec::from(Vec)` keeps the values and their order.
    #[verifier::external_body]
    pub(crate) fn from_values(values: Vec<ExtValue>) -> (r: ExtList)
        ensures
            list_items(r) == values@,
    {
        ExtList { inner: RVec::from(values) }
    }

    /// `RVec::as_slice` gives the values in order.
    #[verifier::external_body]
    pub(crate) fn values(&self) -> (r: &[ExtValue])
        ensures
            r@ == list_items(*self),
    {
        self.inner.as_slice()
    }

    /// A list of values.
    pub fn new(values: Vec<ExtValue>) -> (r: ExtList)
        ensures
            list_items(r) == values@,
    {
        ExtList::from_values(values)
    }

    /// The value at an index.
    pub fn get(&self, index: usize) -> (r: Option<&ExtValue>)
        ensures
            r is Some <==> index < list_items(*self).len(),
            r is Some ==> *r->Some_0 == list_items(*self)[index as int],
    {
        let values: &[ExtValue] = self.values();
        if index < values.len() {
            Some(&values[index])
        } else {
            None
        }
    }

    /// How many values there are.
    pub fn len(&self) -> (r: usize)
        ensures
            r == list_items(*self).len(),
    {
        self.values().len()
    }
}

impl ExtDict {
    /// `RVec::from(Vec)` keeps the pairs and their order.
    #[verifier::external_body]
    pub(crate) fn from_pairs(pairs: Vec<ExtKeyValue>) -> (r: ExtDict)
        ensures
            dict_pairs(r) == pairs@,
    {
        ExtDict { inner: RVec::from(pairs) }
    }

    /// `RVec::as_slice` gives the pairs in order.
    #[verifier::external_body]
    pub(crate) fn pairs(&self) -> (r: &[ExtKeyValue])
        ensures
            r@ == dict_pairs(*self),
    {
        self.inner.as_slice()
    }

    /// A dict of pairs.
    pub fn new(pairs: Vec<ExtKeyValue>) -> (r: ExtDict)
        ensures
            dict_pairs(r) == pairs@,
    {
        ExtDict::from_pairs(pairs)
    }

    /// The pair at an index.
    pub fn get(&self, index: usize) -> (r: Option<&ExtKeyValue>)
        ensures
            r is Some <==> index < dict_pairs(*self).len(),
            r is Some ==> *r->Some_0 == dict_pairs(*self)[index as int],
    {
        let pairs: &[ExtKeyValue] = self.pairs();
        if index < pairs.len() {
            Some(&pairs[index])
        } else {
            None
        }
    }

    /// How many pairs there are.
    pub fn len(&self) -> (r: usize)
        ensures
            r == dict_pairs(*self).len(),
    {
        self.pairs().len()
    }

    /// The value of the first pair with this key.
    pub fn find(&self, key: &str) -> (r: Option<&ExtValue>)
        ensures
            match lookup(dict_pairs(*self), key@) {
                Some(value) => r is Some && *r->Some_0 == value,
                None => r is None,
            },
    {
        let pairs: &[ExtKeyValue] = self.pairs();
        let ghost all = dict_pairs(*self);
        let mut i: usize = 0;
        proof {
            assert(all.skip(0) =~= all);
        }
        while i < pairs.len()
            invariant
                i <= pairs@.len(),
                pairs@ == all,
                all == dict_pairs(*self),
                lookup(all, key@) == lookup(all.skip(i as int), key@),
            decreases pairs@.len() - i,
        {
            proof {
                assert(all.skip(i as int)[0] == all[i as int]);
                assert(all.skip(i as int).skip(1) =~= all.skip(i + 1));
            }
            if same(rstring_str(&pairs[i].key), key) {
                return Some(&pairs[i].value);
            }
            i = i + 1;
        }
        None
    }
}

/// `RVec::from(Vec)` keeps the bytes.
#[verifier::external_body]
pub(crate) fn rvec_from_bytes(bytes: Vec<u8>) -> (r: RVec<u8>)
    ensures
        byte_items(r) == bytes@,
{
    RVec::from(bytes)
}

/// `RVec::as_slice` gives the bytes.
#[verifier::external_body]
pub(crate) fn rvec_bytes(v: &RVec<u8>) -> (r: &[u8])
    ensures
        r@ == byte_items(*v),
{
    v.as_slice()
}

/// The value of the first pair with this key.
pub open spec fn lookup(pairs: Seq<ExtKeyValue>, key: Seq<char>) -> Option<ExtValue>
    decreases pairs.len(),
{
    if pairs.len() == 0 {
        None
    } else if rtext(pairs[0].key) == key {
        Some(pairs[0].value)
    } else {
        lookup(pairs.skip(1), key)
    }
}

// ---------------------------------------------------------------------------
// Values
// ---------------------------------------------------------------------------

/// Key-value pair for dict entries and keyword arguments.
#[derive(Debug)]
pub struct ExtKeyValue {
    /// The key (dict key or keyword argument name).
    pub key: RString,
    /// The value.
    pub value: ExtValue,
}

/// Opaque handle referencing an extension-managed object.
#[derive(Debug)]
pub struct ExtHandle {
    /// Type of the object, for example `"polars.DataFrame"`.
    pub handle_type: RString,
    /// Extension-internal identifier for the object.
    pub handle_id: u64,
    /// Name of the extension that owns this handle.
    pub extension_id: RString,
}

/// A Python value crossing the extension boundary.
#[derive(Debug)]
pub enum ExtValue {
    /// Python `None`.
    NoneValue,
    /// Python `bool`.
    Bool(bool),
    /// Python `int` (fits in `i64`).
    Int(i64),
    /// Python `float`, as the bits of a double.
    Float(u64),
    /// Python `str`.
    Str(RString),
    /// Python `bytes`.
    Bytes(RVec<u8>),
    /// Python `list`.
    List(ExtList),
    /// Python `dict` with string keys.
    Dict(ExtDict),
    /// Opaque handle to an extension-managed object.
    Handle(ExtHandle),
}

/// Whether `b` is a copy of the value `a` down to a depth: the same kind with
/// the same contents.
pub open spec fn copies_to(a: ExtValue, b: ExtValue, depth: nat) -> bool
    decreases depth,
{
    depth > 0 ==> match (a, b) {
        (ExtValue::Str(x), ExtValue::Str(y)) => rtext(x) == rtext(y),
        (ExtValue::Bytes(x), ExtValue::Bytes(y)) => byte_items(x) == byte_items(y),
        (ExtValue::List(x), ExtValue::List(y)) => {
            &&& list_items(x).len() == list_items(y).len()
            &&& forall|i: int|
                0 <= i < list_items(x).len() ==> copies_to(
                    #[trigger] list_items(x)[i],
                    list_items(y)[i],
                    (depth - 1) as nat,
                )
        },
        (ExtValue::Dict(x), ExtValue::Dict(y)) => {
            &&& dict_pairs(x).len() == dict_pairs(y).len()
            &&& forall|i: int|
                0 <= i < dict_pairs(x).len() ==> rtext((#[trigger] dict_pairs(x)[i]).key) == rtext(dict_pairs(y)[i].key)
                    && copies_to(dict_pairs(x)[i].value, dict_pairs(y)[i].value, (depth - 1) as nat)
        },
        (ExtValue::Handle(x), ExtValue::Handle(y)) => x.same_handle(y),
        _ => a == b,
    }
}

/// Whether `b` is a copy of the value `a`.
pub open spec fn copies(a: ExtValue, b: ExtValue) -> bool {
    forall|depth: nat| #[trigger] copies_to(a, b, depth)
}

impl Clone for ExtList {
    /// `RVec::clone` clones the items one by one, and the clone of a value is a
    /// copy of it.
    #[verifier::external_body]
    fn clone(&self) -> (r: ExtList)
        ensures
            list_items(r).len() == list_items(*self).len(),
            forall|i: int|
                0 <= i < list_items(r).len() ==> copies(#[trigger] list_items(*self)[i], list_items(r)[i]),
    {
        ExtList { inner: self.inner.clone() }
    }
}

impl Clone for ExtDict {
    /// `RVec::clone` clones the pairs one by one, and the clone of a pair has
    /// the same key and a copy of its value.
    #[verifier::external_body]
    fn clone(&self) -> (r: ExtDict)
        ensures
            dict_pairs(r).len() == dict_pairs(*self).len(),
            forall|i: int|
                0 <= i < dict_pairs(r).len() ==> rtext((#[trigger] dict_pairs(*self)[i]).key) == rtext(
                    dict_pairs(r)[i].key,
                ) && copies(dict_pairs(*self)[i].value, dict_pairs(r)[i].value),
    {
        ExtDict { inner: self.inner.clone() }
    }
}

proof fn lemma_cloned_lists_copy(x: ExtList, y: ExtList)
    requires
        list_items(y).len() == list_items(x).len(),
        forall|i: int| 0 <= i < list_items(y).len() ==> copies(#[trigger] list_items(x)[i], list_items(y)[i]),
    ensures
        copies(ExtValue::List(x), ExtValue::List(y)),
{
    assert forall|depth: nat| #[trigger] copies_to(ExtValue::List(x), ExtValue::List(y), depth) by {
        if depth > 0 {
            let below = (depth - 1) as nat;
            assert forall|i: int| 0 <= i < list_items(x).len() implies copies_to(
                #[trigger] list_items(x)[i],
                list_items(y)[i],
                below,
            ) by {
                assert(copies(list_items(x)[i], list_items(y)[i]));
            }
        }
    }
}

proof fn lemma_cloned_dicts_copy(x: ExtDict, y: ExtDict)
    requires
        dict_pairs(y).len() == dict_pairs(x).len(),
        forall|i: int|
            0 <= i < dict_pairs(y).len() ==> rtext((#[trigger] dict_pairs(x)[i]).key) == rtext(dict_pairs(y)[i].key)
                && copies(dict_pairs(x)[i].value, dict_pairs(y)[i].value),
    ensures
        copies(ExtValue::Dict(x), ExtValue::Dict(y)),
{
    assert forall|depth: nat| #[trigger] copies_to(ExtValue::Dict(x), ExtValue::Dict(y), depth) by {
        if depth > 0 {
            let below = (depth - 1) as nat;
            assert forall|i: int| 0 <= i < dict_pairs(x).len() implies rtext((#[trigger] dict_pairs(x)[i]).key) == rtext(
                dict_pairs(y)[i].key,
            ) && copies_to(dict_pairs(x)[i].value, dict_pairs(y)[i].value, below) by {
                assert(copies(dict_pairs(x)[i].value, dict_pairs(y)[i].value));
            }
        }
    }
}

impl Clone for ExtHandle {
    fn clone(&self) -> (r: ExtHandle)
        ensures
            r.same_handle(*self),
    {
        self.duplicate()
    }
}

impl Clone for ExtKeyValue {
    fn clone(&self) -> (r: ExtKeyValue)
        ensures
            rtext(r.key) == rtext(self.key),
            copies(self.value, r.value),
    {
        ExtKeyValue { key: rstring(rstring_str(&self.key)), value: self.value.clone() }
    }
}

impl Clone for ExtValue {
    fn clone(&self) -> (r: ExtValue)
        ensures
            copies(*self, r),
    {
        let r: ExtValue = match self {
            ExtValue::NoneValue => ExtValue::NoneValue,
            ExtValue::Bool(b) => ExtValue::Bool(*b),
            ExtValue::Int(i) => ExtValue::Int(*i),
            ExtValue::Float(bits) => ExtValue::Float(*bits),
            ExtValue::Str(text) => ExtValue::Str(rstring(rstring_str(text))),
            ExtValue::Bytes(bytes) => ExtValue::Bytes(rvec_from_bytes(slice_to_vec(rvec_bytes(bytes)))),
            ExtValue::List(items) => ExtValue::List(items.clone()),
            ExtValue::Dict(pairs) => ExtValue::Dict(pairs.clone()),
            ExtValue::Handle(handle) => ExtValue::Handle(handle.duplicate()),
        };
        proof {
            if *self is List {
                lemma_cloned_lists_copy(self->List_0, r->List_0);
            } else if *self is Dict {
                lemma_cloned_dicts_copy(self->Dict_0, r->Dict_0);
            }
        }
        r
    }
}

impl Clone for ExtError {
    fn clone(&self) -> (r: ExtError)
        ensures
            rtext(r.exception_type) == rtext(self.exception_type),
            rtext(r.message) == rtext(self.message),
    {
        ExtError {
            exception_type: rstring(rstring_str(&self.exception_type)),
            message: rstring(rstring_str(&self.message)),
        }
    }
}

impl Clone for ExtArgs {
    fn clone(&self) -> (r: ExtArgs)
        ensures
            copies(ExtValue::List(self.positional), ExtValue::List(r.positional)),
            copies(ExtValue::Dict(self.keyword), ExtValue::Dict(r.keyword)),
    {
        let positional: ExtList = self.positional.clone();
        let keyword: ExtDict = self.keyword.clone();
        proof {
            lemma_cloned_lists_copy(self.positional, positional);
            lemma_cloned_dicts_copy(self.keyword, keyword);
        }
        ExtArgs { positional, keyword }
    }
}

fn slice_to_vec(bytes: &[u8]) -> (r: Vec<u8>)
    ensures
        r@ == bytes@,
{
    let mut out: Vec<u8> = Vec::new();
    out.extend_from_slice(bytes);
    proof {
        assert(out@ =~= bytes@);
    }
    out
}

impl ExtKeyValue {
    /// Creates a new key-value pair.
    #[must_use]
    pub fn new(key: String, value: ExtValue) -> (r: ExtKeyValue)
        ensures
            rtext(r.key) == key@,
            r.value == value,
    {
        ExtKeyValue { key: rstring_from(key), value }
    }
}

impl ExtHandle {
    /// A handle to the object with this id.
    pub fn new(handle_type: &str, handle_id: u64, extension_id: &str) -> (r: ExtHandle)
        ensures
            rtext(r.handle_type) == handle_type@,
            r.handle_id == handle_id,
            rtext(r.extension_id) == extension_id@,
    {
        ExtHandle { handle_type: rstring(handle_type), handle_id, extension_id: rstring(extension_id) }
    }

    /// Whether two handles say the same.
    pub open spec fn same_handle(self, other: ExtHandle) -> bool {
        &&& rtext(self.handle_type) == rtext(other.handle_type)
        &&& self.handle_id == other.handle_id
        &&& rtext(self.extension_id) == rtext(other.extension_id)
    }

    /// A copy of the handle.
    pub fn duplicate(&self) -> (r: ExtHandle)
        ensures
            r.same_handle(*self),
    {
        ExtHandle::new(rstring_str(&self.handle_type), self.handle_id, rstring_str(&self.extension_id))
    }
}

impl ExtValue {
    /// The Python type used in conversion errors.
    pub open spec fn kind(self) -> Seq<char> {
        match self {
            ExtValue::NoneValue => "NoneType"@,
            ExtValue::Bool(_) => "bool"@,
            ExtValue::Int(_) => "int"@,
            ExtValue::Float(_) => "float"@,
            ExtValue::Str(_) => "str"@,
            ExtValue::Bytes(_) => "bytes"@,
            ExtValue::List(_) => "list"@,
            ExtValue::Dict(_) => "dict"@,
            ExtValue::Handle(_) => "handle"@,
        }
    }

    /// Returns the Python-ish type name used in conversion errors.
    #[must_use]
    pub fn kind_name(&self) -> (r: &'static str)
        ensures
            r@ == self.kind(),
    {
        match self {
            ExtValue::NoneValue => "NoneType",
            ExtValue::Bool(_) => "bool",
            ExtValue::Int(_) => "int",
            ExtValue::Float(_) => "float",
            ExtValue::Str(_) => "str",
            ExtValue::Bytes(_) => "bytes",
            ExtValue::List(_) => "list",
            ExtValue::Dict(_) => "dict",
            ExtValue::Handle(_) => "handle",
        }
    }

    /// Creates a string value.
    #[must_use]
    pub fn string(s: String) -> (r: ExtValue)
        ensures
            r is Str,
            rtext(r->Str_0) == s@,
    {
        ExtValue::Str(rstring_from(s))
    }

    /// Creates a bytes value.
    #[must_use]
    pub fn byte_string(bytes: Vec<u8>) -> (r: ExtValue)
        ensures
            r is Bytes,
            byte_items(r->Bytes_0) == bytes@,
    {
        ExtValue::Bytes(rvec_from_bytes(bytes))
    }

    /// Creates a list value.
    #[must_use]
    pub fn list(items: Vec<ExtValue>) -> (r: ExtValue)
        ensures
            r is List,
            list_items(r->List_0) == items@,
    {
        ExtValue::List(ExtList::from_values(items))
    }

    /// Creates a dict value.
    #[must_use]
    pub fn dict(pairs: Vec<ExtKeyValue>) -> (r: ExtValue)
        ensures
            r is Dict,
            dict_pairs(r->Dict_0) == pairs@,
    {
        ExtValue::Dict(ExtDict::from_pairs(pairs))
    }

    /// Returns the contained text when this is a string.
    #[must_use]
    pub fn as_str(&self) -> (r: Option<&str>)
        ensures
            r is Some <==> self is Str,
            r is Some ==> r->Some_0@ == rtext(self->Str_0),
    {
        match self {
            ExtValue::Str(s) => Some(rstring_str(s)),
            _ => None,
        }
    }

    /// Returns the contained integer when this is one.
    #[must_use]
    pub fn as_int(&self) -> (r: Option<i64>)
        ensures
            r == match *self {
                ExtValue::Int(i) => Some(i),
                _ => None,
            },
    {
        match self {
            ExtValue::Int(i) => Some(*i),
            _ => None,
        }
    }

    /// Returns the contained bool when this is one.
    #[must_use]
    pub fn as_bool(&self) -> (r: Option<bool>)
        ensures
            r == match *self {
                ExtValue::Bool(b) => Some(b),
                _ => None,
            },
    {
        match self {
            ExtValue::Bool(b) => Some(*b),
            _ => None,
        }
    }
}

impl From<bool> for ExtValue {
    fn from(value: bool) -> (r: ExtValue) {
        ExtValue::Bool(value)
    }
}

impl vstd::std_specs::convert::FromSpecImpl<bool> for ExtValue {
    open spec fn obeys_from_spec() -> bool {
        true
    }

    open spec fn from_spec(value: bool) -> ExtValue {
        ExtValue::Bool(value)
    }
}

impl<'b> From<&'b str> for ExtValue {
    fn from(value: &'b str) -> (r: ExtValue)
        ensures
            r is Str,
            rtext(r->Str_0) == value@,
    {
        ExtValue::Str(rstring(value))
    }
}

impl<'b> vstd::std_specs::convert::FromSpecImpl<&'b str> for ExtValue {
    open spec fn obeys_from_spec() -> bool {
        false
    }

    open spec fn from_spec(value: &'b str) -> ExtValue {
        ExtValue::NoneValue
    }
}

impl From<String> for ExtValue {
    fn from(value: String) -> (r: ExtValue)
        ensures
            r is Str,
            rtext(r->Str_0) == value@,
    {
        ExtValue::string(value)
    }
}

impl vstd::std_specs::convert::FromSpecImpl<String> for ExtValue {
    open spec fn obeys_from_spec() -> bool {
        false
    }

    open spec fn from_spec(value: String) -> ExtValue {
        ExtValue::NoneValue
    }
}

impl From<Vec<ExtValue>> for ExtValue {
    fn from(value: Vec<ExtValue>) -> (r: ExtValue)
        ensures
            r is List,
            list_items(r->List_0) == value@,
    {
        ExtValue::list(value)
    }
}

impl vstd::std_specs::convert::FromSpecImpl<Vec<ExtValue>> for ExtValue {
    open spec fn obeys_from_spec() -> bool {
        false
    }

    open spec fn from_spec(value: Vec<ExtValue>) -> ExtValue {
        ExtValue::NoneValue
    }
}

impl From<Vec<ExtKeyValue>> for ExtValue {
    fn from(value: Vec<ExtKeyValue>) -> (r: ExtValue)
        ensures
            r is Dict,
            dict_pairs(r->Dict_0) == value@,
    {
        ExtValue::dict(value)
    }
}

impl vstd::std_specs::convert::FromSpecImpl<Vec<ExtKeyValue>> for ExtValue {
    open spec fn obeys_from_spec() -> bool {
        false
    }

    open spec fn from_spec(value: Vec<ExtKeyValue>) -> ExtValue {
        ExtValue::NoneValue
    }
}

impl From<i64> for ExtValue {
    fn from(value: i64) -> (r: ExtValue) {
        ExtValue::Int(value)
    }
}

impl vstd::std_specs::convert::FromSpecImpl<i64> for ExtValue {
    open spec fn obeys_from_spec() -> bool {
        true
    }

    open spec fn from_spec(value: i64) -> ExtValue {
        ExtValue::Int(value)
    }
}

impl From<i32> for ExtValue {
    fn from(value: i32) -> (r: ExtValue) {
        ExtValue::Int(value as i64)
    }
}

impl vstd::std_specs::convert::FromSpecImpl<i32> for ExtValue {
    open spec fn obeys_from_spec() -> bool {
        true
    }

    open spec fn from_spec(value: i32) -> ExtValue {
        ExtValue::Int(value as i64)
    }
}

impl From<u32> for ExtValue {
    fn from(value: u32) -> (r: ExtValue) {
        ExtValue::Int(value as i64)
    }
}

impl vstd::std_specs::convert::FromSpecImpl<u32> for ExtValue {
    open spec fn obeys_from_spec() -> bool {
        true
    }

    open spec fn from_spec(value: u32) -> ExtValue {
        ExtValue::Int(value as i64)
    }
}

// ---------------------------------------------------------------------------
// Errors
// ---------------------------------------------------------------------------

/// Error returned by extension function calls.
#[derive(Debug)]
pub struct ExtError {
    /// Python exception type name.
    pub exception_type: RString,
    /// Exception message.
    pub message: RString,
}

impl ExtError {
    /// An error of this type with this message.
    pub open spec fn says(self, exception_type: Seq<char>, message: Seq<char>) -> bool {
        rtext(self.exception_type) == exception_type && rtext(self.message) == message
    }

    /// A `TypeError` for an argument with the wrong type.
    pub open spec fn is_argument_type(self, function: Seq<char>, parameter: Seq<char>, expected: Seq<char>) -> bool {
        self.says("TypeError"@, function + "() argument '"@ + parameter + "' must be "@ + expected)
    }

    /// A `TypeError` for a missing required argument.
    pub open spec fn is_missing_argument(self, function: Seq<char>, parameter: Seq<char>) -> bool {
        self.says("TypeError"@, function + "() missing required argument: '"@ + parameter + "'"@)
    }

    /// An `AttributeError` for a missing attribute.
    pub open spec fn is_attribute_error(self, object: Seq<char>, attribute: Seq<char>) -> bool {
        self.says("AttributeError"@, "'"@ + object + "' object has no attribute '"@ + attribute + "'"@)
    }

    /// An `AttributeError` for a missing module function.
    pub open spec fn is_unknown_function(self, module: Seq<char>, function: Seq<char>) -> bool {
        self.says("AttributeError"@, "module '"@ + module + "' has no function '"@ + function + "'"@)
    }

    /// A `ValueError` for a dangling or foreign handle.
    pub open spec fn is_invalid_handle(self, function: Seq<char>, object: Seq<char>, handle_id: u64) -> bool {
        self.says(
            "ValueError"@,
            function + "(): invalid "@ + object + " handle (id="@ + decimal(handle_id as nat) + ")"@,
        )
    }

    /// A `ValueError` for an integer out of range.
    pub open spec fn is_integer_overflow(self, source: Seq<char>) -> bool {
        self.says("ValueError"@, source + " value does not fit in Monty's 64-bit integer range"@)
    }

    /// Creates an error with an explicit Python exception type.
    #[must_use]
    pub fn new(exception_type: &str, message: String) -> (r: ExtError)
        ensures
            r.says(exception_type@, message@),
    {
        ExtError { exception_type: rstring(exception_type), message: rstring_from(message) }
    }

    /// Creates a `TypeError`.
    #[must_use]
    pub fn type_error(message: String) -> (r: ExtError)
        ensures
            r.says("TypeError"@, message@),
    {
        ExtError::new("TypeError", message)
    }

    /// Creates a `ValueError`.
    #[must_use]
    pub fn value_error(message: String) -> (r: ExtError)
        ensures
            r.says("ValueError"@, message@),
    {
        ExtError::new("ValueError", message)
    }

    /// Creates a `KeyError`.
    #[must_use]
    pub fn key_error(message: String) -> (r: ExtError)
        ensures
            r.says("KeyError"@, message@),
    {
        ExtError::new("KeyError", message)
    }

    /// Creates an `AttributeError` for a missing attribute on a Python object.
    #[must_use]
    pub fn attribute_error(object: &str, attribute_name: &str) -> (r: ExtError)
        ensures
            r.is_attribute_error(object@, attribute_name@),
    {
        ExtError::new("AttributeError", cat5("'", object, "' object has no attribute '", attribute_name, "'"))
    }

    /// Creates an `AttributeError` for a missing module function.
    #[must_use]
    pub fn unknown_function(module_name: &str, function_name: &str) -> (r: ExtError)
        ensures
            r.is_unknown_function(module_name@, function_name@),
    {
        ExtError::new("AttributeError", cat5("module '", module_name, "' has no function '", function_name, "'"))
    }

    /// Creates a `TypeError` for a missing required argument.
    #[must_use]
    pub fn missing_argument(function_name: &str, parameter_name: &str) -> (r: ExtError)
        ensures
            r.is_missing_argument(function_name@, parameter_name@),
    {
        ExtError::type_error(cat4(function_name, "() missing required argument: '", parameter_name, "'"))
    }

    /// Creates a `TypeError` for an argument with the wrong type.
    #[must_use]
    pub fn argument_type(function_name: &str, parameter_name: &str, expected: &str) -> (r: ExtError)
        ensures
            r.is_argument_type(function_name@, parameter_name@, expected@),
    {
        ExtError::type_error(cat5(function_name, "() argument '", parameter_name, "' must be ", expected))
    }

    /// Creates a `ValueError` for a dangling or foreign handle ID.
    #[must_use]
    pub fn invalid_handle(function_name: &str, object: &str, handle_id: u64) -> (r: ExtError)
        ensures
            r.is_invalid_handle(function_name@, object@, handle_id),
    {
        let head: String = cat4(function_name, "(): invalid ", object, " handle (id=");
        ExtError::value_error(cat3(head.as_str(), decimal_of(handle_id).as_str(), ")"))
    }

    /// Creates a `ValueError` for integer conversions that exceed the range.
    #[must_use]
    pub fn integer_overflow(source: &str) -> (r: ExtError)
        ensures
            r.is_integer_overflow(source@),
    {
        ExtError::value_error(cat2(source, " value does not fit in Monty's 64-bit integer range"))
    }
}

// ---------------------------------------------------------------------------
// Arguments
// ---------------------------------------------------------------------------

/// Extracts typed values from borrowed extension values.
pub trait FromExtValue<'a>: Sized {
    /// Whether a value can be extracted.
    spec fn accepts(value: ExtValue) -> bool;

    /// What an argument has to be, in words.
    spec fn expected() -> Seq<char>;

    /// Whether `out` is what is extracted from the value.
    spec fn extracted(value: ExtValue, out: Self) -> bool;

    /// Converts a borrowed value.
    fn from_ext_value(value: &'a ExtValue, function_name: &str, parameter_name: &str) -> (r: Result<Self, ExtError>)
        ensures
            r is Ok <==> Self::accepts(*value),
            r is Ok ==> Self::extracted(*value, r->Ok_0),
            r is Err ==> r->Err_0.is_argument_type(function_name@, parameter_name@, Self::expected()),
    ;
}

impl<'a> FromExtValue<'a> for &'a ExtValue {
    open spec fn accepts(value: ExtValue) -> bool {
        true
    }

    open spec fn expected() -> Seq<char> {
        "any value"@
    }

    open spec fn extracted(value: ExtValue, out: &'a ExtValue) -> bool {
        *out == value
    }

    fn from_ext_value(value: &'a ExtValue, function_name: &str, parameter_name: &str) -> (r: Result<
        &'a ExtValue,
        ExtError,
    >) {
        Ok(value)
    }
}

impl<'a> FromExtValue<'a> for ExtValue {
    open spec fn accepts(value: ExtValue) -> bool {
        true
    }

    open spec fn expected() -> Seq<char> {
        "any value"@
    }

    open spec fn extracted(value: ExtValue, out: ExtValue) -> bool {
        copies(value, out)
    }

    fn from_ext_value(value: &'a ExtValue, function_name: &str, parameter_name: &str) -> (r: Result<
        ExtValue,
        ExtError,
    >) {
        Ok(value.clone())
    }
}

impl<'a> FromExtValue<'a> for bool {
    open spec fn accepts(value: ExtValue) -> bool {
        value is Bool
    }

    open spec fn expected() -> Seq<char> {
        "a bool"@
    }

    open spec fn extracted(value: ExtValue, out: bool) -> bool {
        value == ExtValue::Bool(out)
    }

    fn from_ext_value(value: &'a ExtValue, function_name: &str, parameter_name: &str) -> (r: Result<bool, ExtError>) {
        match value {
            ExtValue::Bool(value) => Ok(*value),
            _ => Err(ExtError::argument_type(function_name, parameter_name, "a bool")),
        }
    }
}

impl<'a> FromExtValue<'a> for i64 {
    open spec fn accepts(value: ExtValue) -> bool {
        value is Int
    }

    open spec fn expected() -> Seq<char> {
        "an int"@
    }

    open spec fn extracted(value: ExtValue, out: i64) -> bool {
        value == ExtValue::Int(out)
    }

    fn from_ext_value(value: &'a ExtValue, function_name: &str, parameter_name: &str) -> (r: Result<i64, ExtError>) {
        match value {
            ExtValue::Int(value) => Ok(*value),
            _ => Err(ExtError::argument_type(function_name, parameter_name, "an int")),
        }
    }
}

impl<'a> FromExtValue<'a> for usize {
    open spec fn accepts(value: ExtValue) -> bool {
        value is Int && 0 <= value->Int_0 <= usize::MAX
    }

    open spec fn expected() -> Seq<char> {
        "a non-negative int"@
    }

    open spec fn extracted(value: ExtValue, out: usize) -> bool {
        value is Int && value->Int_0 == out
    }

    fn from_ext_value(value: &'a ExtValue, function_name: &str, parameter_name: &str) -> (r: Result<usize, ExtError>) {
        match value {
            ExtValue::Int(value) => {
                if *value >= 0 && (*value as u64) <= (usize::MAX as u64) {
                    Ok(*value as usize)
                } else {
                    Err(ExtError::argument_type(function_name, parameter_name, "a non-negative int"))
                }
            },
            _ => Err(ExtError::argument_type(function_name, parameter_name, "a non-negative int")),
        }
    }
}

impl<'a> FromExtValue<'a> for &'a str {
    open spec fn accepts(value: ExtValue) -> bool {
        value is Str
    }

    open spec fn expected() -> Seq<char> {
        "a str"@
    }

    open spec fn extracted(value: ExtValue, out: &'a str) -> bool {
        value is Str && rtext(value->Str_0) == out@
    }

    fn from_ext_value(value: &'a ExtValue, function_name: &str, parameter_name: &str) -> (r: Result<&'a str, ExtError>) {
        match value {
            ExtValue::Str(value) => Ok(rstring_str(value)),
            _ => Err(ExtError::argument_type(function_name, parameter_name, "a str")),
        }
    }
}

impl<'a> FromExtValue<'a> for String {
    open spec fn accepts(value: ExtValue) -> bool {
        value is Str
    }

    open spec fn expected() -> Seq<char> {
        "a str"@
    }

    open spec fn extracted(value: ExtValue, out: String) -> bool {
        value is Str && rtext(value->Str_0) == out@
    }

    fn from_ext_value(value: &'a ExtValue, function_name: &str, parameter_name: &str) -> (r: Result<String, ExtError>) {
        match value {
            ExtValue::Str(value) => Ok(rstring_str(value).to_owned()),
            _ => Err(ExtError::argument_type(function_name, parameter_name, "a str")),
        }
    }
}

impl<'a> FromExtValue<'a> for &'a [u8] {
    open spec fn accepts(value: ExtValue) -> bool {
        value is Bytes
    }

    open spec fn expected() -> Seq<char> {
        "bytes"@
    }

    open spec fn extracted(value: ExtValue, out: &'a [u8]) -> bool {
        value is Bytes && byte_items(value->Bytes_0) == out@
    }

    fn from_ext_value(value: &'a ExtValue, function_name: &str, parameter_name: &str) -> (r: Result<
        &'a [u8],
        ExtError,
    >) {
        match value {
            ExtValue::Bytes(value) => Ok(rvec_bytes(value)),
            _ => Err(ExtError::argument_type(function_name, parameter_name, "bytes")),
        }
    }
}

impl<'a> FromExtValue<'a> for &'a ExtHandle {
    open spec fn accepts(value: ExtValue) -> bool {
        value is Handle
    }

    open spec fn expected() -> Seq<char> {
        "a handle"@
    }

    open spec fn extracted(value: ExtValue, out: &'a ExtHandle) -> bool {
        value == ExtValue::Handle(*out)
    }

    fn from_ext_value(value: &'a ExtValue, function_name: &str, parameter_name: &str) -> (r: Result<
        &'a ExtHandle,
        ExtError,
    >) {
        match value {
            ExtValue::Handle(handle) => Ok(handle),
            _ => Err(ExtError::argument_type(function_name, parameter_name, "a handle")),
        }
    }
}

impl<'a> FromExtValue<'a> for ExtHandle {
    open spec fn accepts(value: ExtValue) -> bool {
        value is Handle
    }

    open spec fn expected() -> Seq<char> {
        "a handle"@
    }

    open spec fn extracted(value: ExtValue, out: ExtHandle) -> bool {
        value is Handle && out.same_handle(value->Handle_0)
    }

    fn from_ext_value(value: &'a ExtValue, function_name: &str, parameter_name: &str) -> (r: Result<
        ExtHandle,
        ExtError,
    >) {
        match value {
            ExtValue::Handle(handle) => Ok(handle.duplicate()),
            _ => Err(ExtError::argument_type(function_name, parameter_name, "a handle")),
        }
    }
}

/// Arguments passed to an extension function call.
#[derive(Debug)]
pub struct ExtArgs {
    /// Positional arguments in call order.
    pub positional: ExtList,
    /// Keyword arguments as name and value.
    pub keyword: ExtDict,
}

impl ExtArgs {
    /// The positional argument at an index.
    pub open spec fn at(self, index: usize) -> Option<ExtValue> {
        if index < list_items(self.positional).len() { Some(list_items(self.positional)[index as int]) } else { None }
    }

    /// The keyword argument with a name: the first, should there be several.
    pub open spec fn named(self, name: Seq<char>) -> Option<ExtValue> {
        lookup(dict_pairs(self.keyword), name)
    }

    /// The value of a parameter: its positional slot comes first, then the
    /// keyword of the same name.
    pub open spec fn provided(self, index: usize, name: Seq<char>) -> Option<ExtValue> {
        match self.at(index) {
            Some(value) => Some(value),
            None => self.named(name),
        }
    }

    /// Reads a required positional argument and converts it to `T`.
    pub fn get<'a, T: FromExtValue<'a>>(&'a self, index: usize, function_name: &str, parameter_name: &str) -> (r: Result<
        T,
        ExtError,
    >)
        ensures
            match self.at(index) {
                None => r is Err && r->Err_0.is_missing_argument(function_name@, parameter_name@),
                Some(value) => converts::<'a, T>(value, function_name@, parameter_name@, r),
            },
    {
        match self.positional.get(index) {
            None => Err(ExtError::missing_argument(function_name, parameter_name)),
            Some(value) => T::from_ext_value(value, function_name, parameter_name),
        }
    }

    /// Reads a required argument, checking the positional slot first and then
    /// the keyword of the same name.
    pub fn argument<'a, T: FromExtValue<'a>>(&'a self, index: usize, function_name: &str, parameter_name: &str) -> (r:
        Result<T, ExtError>)
        ensures
            match self.provided(index, parameter_name@) {
                None => r is Err && r->Err_0.is_missing_argument(function_name@, parameter_name@),
                Some(value) => converts::<'a, T>(value, function_name@, parameter_name@, r),
            },
    {
        match self.positional.get(index) {
            Some(value) => T::from_ext_value(value, function_name, parameter_name),
            None => match self.raw_kwarg(parameter_name) {
                Some(value) => T::from_ext_value(value, function_name, parameter_name),
                None => Err(ExtError::missing_argument(function_name, parameter_name)),
            },
        }
    }

    /// Reads an optional argument, checking the positional slot first and then
    /// the keyword of the same name.
    pub fn optional_argument<'a, T: FromExtValue<'a>>(
        &'a self,
        index: usize,
        function_name: &str,
        parameter_name: &str,
    ) -> (r: Result<Option<T>, ExtError>)
        ensures
            match self.provided(index, parameter_name@) {
                None => r == Ok::<Option<T>, ExtError>(None),
                Some(value) => converts_some::<'a, T>(value, function_name@, parameter_name@, r),
            },
    {
        match self.positional.get(index) {
            Some(value) => match T::from_ext_value(value, function_name, parameter_name) {
                Ok(out) => Ok(Some(out)),
                Err(err) => Err(err),
            },
            None => self.kwarg(parameter_name, function_name),
        }
    }

    /// Reads a keyword argument by name and converts it to `T` when present.
    pub fn kwarg<'a, T: FromExtValue<'a>>(&'a self, name: &str, function_name: &str) -> (r: Result<
        Option<T>,
        ExtError,
    >)
        ensures
            match self.named(name@) {
                None => r == Ok::<Option<T>, ExtError>(None),
                Some(value) => converts_some::<'a, T>(value, function_name@, name@, r),
            },
    {
        match self.raw_kwarg(name) {
            None => Ok(None),
            Some(value) => match T::from_ext_value(value, function_name, name) {
                Ok(out) => Ok(Some(out)),
                Err(err) => Err(err),
            },
        }
    }

    /// Returns the raw keyword value by name when present.
    #[must_use]
    pub fn raw_kwarg(&self, name: &str) -> (r: Option<&ExtValue>)
        ensures
            match self.named(name@) {
                Some(value) => r is Some && *r->Some_0 == value,
                None => r is None,
            },
    {
        self.keyword.find(name)
    }
}

/// The conversion of a value succeeds, or says what was expected.
pub open spec fn converts<'a, T: FromExtValue<'a>>(
    value: ExtValue,
    function: Seq<char>,
    parameter: Seq<char>,
    r: Result<T, ExtError>,
) -> bool {
    if T::accepts(value) {
        r is Ok && T::extracted(value, r->Ok_0)
    } else {
        r is Err && r->Err_0.is_argument_type(function, parameter, T::expected())
    }
}

/// The conversion of an optional value succeeds, or says what was expected.
pub open spec fn converts_some<'a, T: FromExtValue<'a>>(
    value: ExtValue,
    function: Seq<char>,
    parameter: Seq<char>,
    r: Result<Option<T>, ExtError>,
) -> bool {
    if T::accepts(value) {
        r is Ok && r->Ok_0 is Some && T::extracted(value, r->Ok_0->Some_0)
    } else {
        r is Err && r->Err_0.is_argument_type(function, parameter, T::expected())
    }
}

/// A positional argument hides a keyword of the same name.
pub proof fn law_positional_comes_first(args: ExtArgs, index: usize, name: Seq<char>)
    ensures
        args.at(index) is Some ==> args.provided(index, name) == args.at(index),
        args.at(index) is None ==> args.provided(index, name) == args.named(name),
{
}

// ---------------------------------------------------------------------------
// Results
// ---------------------------------------------------------------------------

/// Converts values of extension code into extension values.
pub trait TryIntoExtValue: Sized {
    /// Whether the value can be converted.
    spec fn fits(self) -> bool;

    /// Whether `out` is the converted value.
    spec fn converted(self, out: ExtValue) -> bool;

    /// Whether `err` says why the value cannot be converted.
    spec fn refused(self, err: ExtError) -> bool;

    /// Converts the value.
    fn try_into_ext_value(self) -> (r: Result<ExtValue, ExtError>)
        ensures
            r is Ok <==> self.fits(),
            r is Ok ==> self.converted(r->Ok_0),
            r is Err ==> self.refused(r->Err_0),
    ;
}

impl TryIntoExtValue for ExtValue {
    open spec fn fits(self) -> bool {
        true
    }

    open spec fn converted(self, out: ExtValue) -> bool {
        out == self
    }

    open spec fn refused(self, err: ExtError) -> bool {
        false
    }

    fn try_into_ext_value(self) -> (r: Result<ExtValue, ExtError>) {
        Ok(self)
    }
}

impl TryIntoExtValue for ExtHandle {
    open spec fn fits(self) -> bool {
        true
    }

    open spec fn converted(self, out: ExtValue) -> bool {
        out == ExtValue::Handle(self)
    }

    open spec fn refused(self, err: ExtError) -> bool {
        false
    }

    fn try_into_ext_value(self) -> (r: Result<ExtValue, ExtError>) {
        Ok(ExtValue::Handle(self))
    }
}

impl TryIntoExtValue for () {
    open spec fn fits(self) -> bool {
        true
    }

    open spec fn converted(self, out: ExtValue) -> bool {
        out is NoneValue
    }

    open spec fn refused(self, err: ExtError) -> bool {
        false
    }

    fn try_into_ext_value(self) -> (r: Result<ExtValue, ExtError>) {
        Ok(ExtValue::NoneValue)
    }
}

impl TryIntoExtValue for bool {
    open spec fn fits(self) -> bool {
        true
    }

    open spec fn converted(self, out: ExtValue) -> bool {
        out == ExtValue::Bool(self)
    }

    open spec fn refused(self, err: ExtError) -> bool {
        false
    }

    fn try_into_ext_value(self) -> (r: Result<ExtValue, ExtError>) {
        Ok(ExtValue::Bool(self))
    }
}

impl TryIntoExtValue for i64 {
    open spec fn fits(self) -> bool {
        true
    }

    open spec fn converted(self, out: ExtValue) -> bool {
        out == ExtValue::Int(self)
    }

    open spec fn refused(self, err: ExtError) -> bool {
        false
    }

    fn try_into_ext_value(self) -> (r: Result<ExtValue, ExtError>) {
        Ok(ExtValue::Int(self))
    }
}

impl TryIntoExtValue for i32 {
    open spec fn fits(self) -> bool {
        true
    }

    open spec fn converted(self, out: ExtValue) -> bool {
        out is Int && out->Int_0 == self
    }

    open spec fn refused(self, err: ExtError) -> bool {
        false
    }

    fn try_into_ext_value(self) -> (r: Result<ExtValue, ExtError>) {
        Ok(ExtValue::Int(self as i64))
    }
}

impl TryIntoExtValue for u32 {
    open spec fn fits(self) -> bool {
        true
    }

    open spec fn converted(self, out: ExtValue) -> bool {
        out is Int && out->Int_0 == self
    }

    open spec fn refused(self, err: ExtError) -> bool {
        false
    }

    fn try_into_ext_value(self) -> (r: Result<ExtValue, ExtError>) {
        Ok(ExtValue::Int(self as i64))
    }
}

impl TryIntoExtValue for u64 {
    open spec fn fits(self) -> bool {
        self <= i64::MAX
    }

    open spec fn converted(self, out: ExtValue) -> bool {
        out is Int && out->Int_0 == self
    }

    open spec fn refused(self, err: ExtError) -> bool {
        err.is_integer_overflow("u64"@)
    }

    fn try_into_ext_value(self) -> (r: Result<ExtValue, ExtError>) {
        if self <= 0x7fff_ffff_ffff_ffff {
            Ok(ExtValue::Int(self as i64))
        } else {
            Err(ExtError::integer_overflow("u64"))
        }
    }
}

impl TryIntoExtValue for usize {
    open spec fn fits(self) -> bool {
        self <= i64::MAX
    }

    open spec fn converted(self, out: ExtValue) -> bool {
        out is Int && out->Int_0 == self
    }

    open spec fn refused(self, err: ExtError) -> bool {
        err.is_integer_overflow("usize"@)
    }

    fn try_into_ext_value(self) -> (r: Result<ExtValue, ExtError>) {
        if self as u64 <= 0x7fff_ffff_ffff_ffff {
            Ok(ExtValue::Int(self as i64))
        } else {
            Err(ExtError::integer_overflow("usize"))
        }
    }
}

impl TryIntoExtValue for String {
    open spec fn fits(self) -> bool {
        true
    }

    open spec fn converted(self, out: ExtValue) -> bool {
        out is Str && rtext(out->Str_0) == self@
    }

    open spec fn refused(self, err: ExtError) -> bool {
        false
    }

    fn try_into_ext_value(self) -> (r: Result<ExtValue, ExtError>) {
        Ok(ExtValue::Str(rstring_from(self)))
    }
}

impl<'b> TryIntoExtValue for &'b str {
    open spec fn fits(self) -> bool {
        true
    }

    open spec fn converted(self, out: ExtValue) -> bool {
        out is Str && rtext(out->Str_0) == self@
    }

    open spec fn refused(self, err: ExtError) -> bool {
        false
    }

    fn try_into_ext_value(self) -> (r: Result<ExtValue, ExtError>) {
        Ok(ExtValue::Str(rstring(self)))
    }
}

impl TryIntoExtValue for RString {
    open spec fn fits(self) -> bool {
        true
    }

    open spec fn converted(self, out: ExtValue) -> bool {
        out == ExtValue::Str(self)
    }

    open spec fn refused(self, err: ExtError) -> bool {
        false
    }

    fn try_into_ext_value(self) -> (r: Result<ExtValue, ExtError>) {
        Ok(ExtValue::Str(self))
    }
}

impl<T: TryIntoExtValue> TryIntoExtValue for Option<T> {
    open spec fn fits(self) -> bool {
        self is Some ==> self->Some_0.fits()
    }

    open spec fn converted(self, out: ExtValue) -> bool {
        match self {
            Some(value) => value.converted(out),
            None => out is NoneValue,
        }
    }

    open spec fn refused(self, err: ExtError) -> bool {
        self is Some && self->Some_0.refused(err)
    }

    fn try_into_ext_value(self) -> (r: Result<ExtValue, ExtError>) {
        match self {
            Some(value) => value.try_into_ext_value(),
            None => Ok(ExtValue::NoneValue),
        }
    }
}

impl<T: TryIntoExtValue> TryIntoExtValue for Vec<T> {
    open spec fn fits(self) -> bool {
        forall|i: int| 0 <= i < self@.len() ==> (#[trigger] self@[i]).fits()
    }

    open spec fn converted(self, out: ExtValue) -> bool {
        &&& out is List
        &&& list_items(out->List_0).len() == self@.len()
        &&& forall|i: int| 0 <= i < self@.len() ==> (#[trigger] self@[i]).converted(list_items(out->List_0)[i])
    }

    open spec fn refused(self, err: ExtError) -> bool {
        exists|i: int|
            {
                &&& 0 <= i < self@.len()
                &&& (#[trigger] self@[i]).refused(err)
                &&& !self@[i].fits()
                &&& forall|j: int| 0 <= j < i ==> (#[trigger] self@[j]).fits()
            }
    }

    fn try_into_ext_value(self) -> (r: Result<ExtValue, ExtError>) {
        let ghost all = self@;
        let mut items: Vec<ExtValue> = Vec::new();
        for value in it: self
            invariant
                it.seq() == all,
                items@.len() == it.index(),
                forall|j: int| 0 <= j < it.index() ==> (#[trigger] all[j]).fits() && all[j].converted(items@[j]),
        {
            let ghost k = it.index() as int;
            match value.try_into_ext_value() {
                Ok(item) => items.push(item),
                Err(err) => {
                    proof {
                        assert(all[k].refused(err));
                    }
                    return Err(err);
                },
            }
        }
        Ok(ExtValue::list(items))
    }
}

/// What extension code returns can be read back as the same value.
pub proof fn law_converted_values_read_back(b: bool, i: i64, n: usize, s: String, out: ExtValue)
    ensures
        b.converted(out) ==> bool::accepts(out) && forall|back: bool| #[trigger]
            bool::extracted(out, back) ==> back == b,
        i.converted(out) ==> i64::accepts(out) && forall|back: i64| #[trigger] i64::extracted(out, back) ==> back == i,
        n.converted(out) ==> usize::accepts(out) && forall|back: usize| #[trigger]
            usize::extracted(out, back) ==> back == n,
        s.converted(out) ==> String::accepts(out) && forall|back: String| #[trigger]
            String::extracted(out, back) ==> back@ == s@,
{
}

/// Converts named values into a dict, in their order.
pub fn pairs_into_ext_value<T: TryIntoExtValue>(pairs: Vec<(String, T)>) -> (r: Result<ExtValue, ExtError>)
    ensures
        r is Ok <==> forall|i: int| 0 <= i < pairs@.len() ==> (#[trigger] pairs@[i]).1.fits(),
        r is Ok ==> {
            &&& r->Ok_0 is Dict
            &&& dict_pairs(r->Ok_0->Dict_0).len() == pairs@.len()
            &&& forall|i: int|
                0 <= i < pairs@.len() ==> {
                    &&& rtext(dict_pairs(r->Ok_0->Dict_0)[i].key) == (#[trigger] pairs@[i]).0@
                    &&& pairs@[i].1.converted(dict_pairs(r->Ok_0->Dict_0)[i].value)
                }
        },
        r is Err ==> exists|i: int|
            {
                &&& 0 <= i < pairs@.len()
                &&& (#[trigger] pairs@[i]).1.refused(r->Err_0)
                &&& !pairs@[i].1.fits()
                &&& forall|j: int| 0 <= j < i ==> (#[trigger] pairs@[j]).1.fits()
            },
{
    let ghost all = pairs@;
    let mut out: Vec<ExtKeyValue> = Vec::new();
    for pair in it: pairs
        invariant
            it.seq() == all,
            out@.len() == it.index(),
            forall|j: int|
                0 <= j < it.index() ==> (#[trigger] all[j]).1.fits() && all[j].1.converted(out@[j].value) && rtext(
                    out@[j].key,
                ) == all[j].0@,
    {
        let ghost k = it.index() as int;
        let (key, value) = pair;
        match value.try_into_ext_value() {
            Ok(value) => out.push(ExtKeyValue::new(key, value)),
            Err(err) => {
                proof {
                    assert(all[k].1.refused(err));
                }
                return Err(err);
            },
        }
    }
    Ok(ExtValue::dict(out))
}

/// Converts author-friendly return values into extension results.
pub trait IntoExtResult: Sized {
    /// Whether `r` is the result.
    spec fn gives(self, r: Result<ExtValue, ExtError>) -> bool;

    /// Converts the value.
    fn into_ext_result(self) -> (r: Result<ExtValue, ExtError>)
        ensures
            self.gives(r),
    ;
}

impl<T: TryIntoExtValue> IntoExtResult for Result<T, ExtError> {
    open spec fn gives(self, r: Result<ExtValue, ExtError>) -> bool {
        match self {
            Err(err) => r == Err::<ExtValue, ExtError>(err),
            Ok(value) => if value.fits() {
                r is Ok && value.converted(r->Ok_0)
            } else {
                r is Err && value.refused(r->Err_0)
            },
        }
    }

    fn into_ext_result(self) -> (r: Result<ExtValue, ExtError>) {
        match self {
            Ok(value) => value.try_into_ext_value(),
            Err(err) => Err(err),
        }
    }
}

impl<T: TryIntoExtValue> IntoExtResult for T {
    open spec fn gives(self, r: Result<ExtValue, ExtError>) -> bool {
        if self.fits() {
            r is Ok && self.converted(r->Ok_0)
        } else {
            r is Err && self.refused(r->Err_0)
        }
    }

    fn into_ext_result(self) -> (r: Result<ExtValue, ExtError>) {
        self.try_into_ext_value()
    }
}

/// Convenience wrapper around `IntoExtResult::into_ext_result`.
pub fn into_ext_result<V: IntoExtResult>(value: V) -> (r: Result<ExtValue, ExtError>)
    ensures
        value.gives(r),
{
    value.into_ext_result()
}

// ---------------------------------------------------------------------------
// Context and manifest
// ---------------------------------------------------------------------------

/// Resource budget exposed to extensions for cooperative limit checking.
#[derive(Clone, Copy, Debug, PartialEq, Eq, Structural)]
pub struct ResourceBudget {
    /// Remaining wall-clock time in milliseconds, or `None` for unlimited.
    pub remaining_time_ms: Option<u64>,
    /// Remaining allocation count, or `None` for unlimited.
    pub remaining_allocations: Option<u64>,
}

/// Execution context passed to extension function calls.
#[derive(Clone, Copy, Debug, PartialEq, Eq, Structural)]
pub struct ExtContext {
    /// Current resource budget.
    pub budget: ResourceBudget,
}

/// Declaration of a single function exported by an extension.
#[derive(Debug)]
pub struct ExtFunctionDecl {
    /// Function name as it appears in Python.
    pub name: RString,
    /// Whether this function executes natively in the VM loop.
    pub is_native: bool,
}

/// Module metadata describing an extension's capabilities.
#[derive(Debug)]
pub struct ExtManifest {
    /// Python module name.
    pub module_name: RString,
    /// Functions exported by this module.
    pub functions: Vec<ExtFunctionDecl>,
    /// Optional Python type stub source.
    pub type_stub_source: Option<RString>,
    /// Markdown skill description for AI agent prompt injection.
    pub skill: RString,
    /// Semantic version of this extension.
    pub version: RString,
}

// ---------------------------------------------------------------------------
// Laws
// ---------------------------------------------------------------------------

/// A key finds the value of the first pair that has it, and nothing only where
/// no pair has it.
pub proof fn law_first_pair_of_a_key_is_found(pairs: Seq<ExtKeyValue>, key: Seq<char>)
    ensures
        lookup(pairs, key) is None <==> forall|i: int| 0 <= i < pairs.len() ==> rtext((#[trigger] pairs[i]).key) != key,
        lookup(pairs, key) is Some ==> exists|i: int|
            {
                &&& 0 <= i < pairs.len()
                &&& rtext((#[trigger] pairs[i]).key) == key
                &&& pairs[i].value == lookup(pairs, key)->Some_0
                &&& forall|j: int| 0 <= j < i ==> rtext((#[trigger] pairs[j]).key) != key
            },
    decreases pairs.len(),
{
    if pairs.len() > 0 && rtext(pairs[0].key) != key {
        let rest = pairs.skip(1);
        law_first_pair_of_a_key_is_found(rest, key);
        if lookup(rest, key) is Some {
            let k = choose|i: int|
                {
                    &&& 0 <= i < rest.len()
                    &&& rtext((#[trigger] rest[i]).key) == key
                    &&& rest[i].value == lookup(rest, key)->Some_0
                    &&& forall|j: int| 0 <= j < i ==> rtext((#[trigger] rest[j]).key) != key
                };
            assert(pairs[k + 1] == rest[k]);
            assert forall|j: int| 0 <= j < k + 1 implies rtext((#[trigger] pairs[j]).key) != key by {
                if j > 0 {
                    assert(pairs[j] == rest[j - 1]);
                }
            }
        } else {
            assert forall|i: int| 0 <= i < pairs.len() implies rtext((#[trigger] pairs[i]).key) != key by {
                if i > 0 {
                    assert(pairs[i] == rest[i - 1]);
                }
            }
        }
    } else if pairs.len() > 0 {
        assert(rtext(pairs[0].key) == key);
    }
}

/// A parameter has the positional argument of its place; without one it has the
/// first keyword of its name, and without that nothing.
pub proof fn law_parameters_are_found_by_place_then_name(args: ExtArgs, index: usize, name: Seq<char>)
    ensures
        index < list_items(args.positional).len() ==> args.provided(index, name) == Some(
            list_items(args.positional)[index as int],
        ),
        index >= list_items(args.positional).len() ==> args.provided(index, name) == lookup(
            dict_pairs(args.keyword),
            name,
        ),
        args.named(name) == lookup(dict_pairs(args.keyword), name),
{
}

/// A value is read as a type exactly where it is of the matching kind, and what
/// is read is what it holds.
pub proof fn law_values_are_read_by_kind(value: ExtValue, b: bool, i: i64, n: usize, s: String)
    ensures
        bool::accepts(value) <==> value is Bool,
        bool::extracted(value, b) <==> value == ExtValue::Bool(b),
        i64::accepts(value) <==> value is Int,
        i64::extracted(value, i) <==> value == ExtValue::Int(i),
        usize::accepts(value) <==> value is Int && value->Int_0 >= 0 && value->Int_0 <= usize::MAX,
        usize::extracted(value, n) ==> value is Int && value->Int_0 == n,
        String::accepts(value) <==> value is Str,
        String::extracted(value, s) ==> value is Str && rtext(value->Str_0) == s@,
        <&str as FromExtValue>::accepts(value) <==> value is Str,
        <&[u8] as FromExtValue>::accepts(value) <==> value is Bytes,
        ExtHandle::accepts(value) <==> value is Handle,
        <&ExtHandle as FromExtValue>::accepts(value) <==> value is Handle,
        <ExtValue as FromExtValue>::accepts(value),
        <&ExtValue as FromExtValue>::accepts(value),
{
}

/// Borrowed values are read as what they hold, and a handle as the same handle.
pub proof fn law_borrowed_values_are_read_whole(value: ExtValue, s: &str, bytes: &[u8], h: ExtHandle, any: &ExtValue)
    ensures
        <&str as FromExtValue>::extracted(value, s) ==> value is Str && rtext(value->Str_0) == s@,
        <&[u8] as FromExtValue>::extracted(value, bytes) ==> value is Bytes && byte_items(value->Bytes_0) == bytes@,
        <&ExtValue as FromExtValue>::extracted(value, any) ==> *any == value,
        ExtHandle::extracted(value, h) ==> {
            &&& value is Handle
            &&& rtext(h.handle_type) == rtext(value->Handle_0.handle_type)
            &&& h.handle_id == value->Handle_0.handle_id
            &&& rtext(h.extension_id) == rtext(value->Handle_0.extension_id)
        },
{
}

/// An integer is returned as itself exactly where it fits 64 bits with a sign.
pub proof fn law_integers_are_returned_as_themselves(a: i32, b: u32, c: u64, d: usize, e: i64, out: ExtValue)
    ensures
        a.fits(),
        a.converted(out) ==> out is Int && out->Int_0 == a,
        b.fits(),
        b.converted(out) ==> out is Int && out->Int_0 == b,
        c.fits() <==> c <= 0x7fff_ffff_ffff_ffff,
        c.converted(out) ==> out is Int && out->Int_0 == c,
        d.fits() <==> d <= 0x7fff_ffff_ffff_ffff,
        d.converted(out) ==> out is Int && out->Int_0 == d,
        e.fits(),
        e.converted(out) ==> out == ExtValue::Int(e),
{
}

/// An absent value is returned as `None` and a present one as itself; a list is
/// returned item by item, in order, and fails with its first item that does.
pub proof fn law_options_and_lists_are_returned_by_item<T: TryIntoExtValue>(
    value: Option<T>,
    items: Vec<T>,
    out: ExtValue,
    err: ExtError,
)
    ensures
        value is None ==> value.fits() && (value.converted(out) <==> out is NoneValue),
        value is Some ==> (value.fits() <==> value->Some_0.fits()) && (value.converted(out)
            <==> value->Some_0.converted(out)),
        items.fits() <==> forall|i: int| 0 <= i < items@.len() ==> (#[trigger] items@[i]).fits(),
        items.converted(out) ==> out is List && list_items(out->List_0).len() == items@.len() && forall|i: int|
            0 <= i < items@.len() ==> (#[trigger] items@[i]).converted(list_items(out->List_0)[i]),
        items.refused(err) ==> exists|i: int|
            {
                &&& 0 <= i < items@.len()
                &&& (#[trigger] items@[i]).refused(err)
                &&& forall|j: int| 0 <= j < i ==> (#[trigger] items@[j]).fits()
            },
{
}

/// What extension code returns reaches the caller: an error as it is, and a
/// value converted.
pub proof fn law_results_reach_the_caller<T: TryIntoExtValue>(
    value: Result<T, ExtError>,
    r: Result<ExtValue, ExtError>,
)
    requires
        value.gives(r),
    ensures
        value is Err ==> r is Err && r->Err_0 == value->Err_0,
        value is Ok && value->Ok_0.fits() ==> r is Ok && value->Ok_0.converted(r->Ok_0),
        value is Ok && !value->Ok_0.fits() ==> r is Err && value->Ok_0.refused(r->Err_0),
{
}

/// A copy is of the same kind with the same contents, at every depth.
pub proof fn law_copies_hold_the_same(a: ExtValue, b: ExtValue)
    requires
        copies(a, b),
    ensures
        a.kind() == b.kind(),
        a is Bool || a is Int || a is Float || a is NoneValue ==> a == b,
        a is Str ==> b is Str && rtext(a->Str_0) == rtext(b->Str_0),
        a is Bytes ==> b is Bytes && byte_items(a->Bytes_0) == byte_items(b->Bytes_0),
        a is Handle ==> b is Handle && a->Handle_0.same_handle(b->Handle_0),
        a is List ==> b is List && list_items(a->List_0).len() == list_items(b->List_0).len() && forall|i: int|
            0 <= i < list_items(a->List_0).len() ==> copies(
                #[trigger] list_items(a->List_0)[i],
                list_items(b->List_0)[i],
            ),
        a is Dict ==> b is Dict && dict_pairs(a->Dict_0).len() == dict_pairs(b->Dict_0).len() && forall|i: int|
            0 <= i < dict_pairs(a->Dict_0).len() ==> rtext((#[trigger] dict_pairs(a->Dict_0)[i]).key) == rtext(
                dict_pairs(b->Dict_0)[i].key,
            ) && copies(dict_pairs(a->Dict_0)[i].value, dict_pairs(b->Dict_0)[i].value),
{
    assert(copies_to(a, b, 1));
    if a is List && b is List {
        assert forall|i: int| 0 <= i < list_items(a->List_0).len() implies copies(
            #[trigger] list_items(a->List_0)[i],
            list_items(b->List_0)[i],
        ) by {
            assert forall|depth: nat| #[trigger]
                copies_to(list_items(a->List_0)[i], list_items(b->List_0)[i], depth) by {
                assert(copies_to(a, b, depth + 1));
            }
        }
    }
    if a is Dict && b is Dict {
        assert forall|i: int| 0 <= i < dict_pairs(a->Dict_0).len() implies rtext(
            (#[trigger] dict_pairs(a->Dict_0)[i]).key,
        ) == rtext(dict_pairs(b->Dict_0)[i].key) && copies(
            dict_pairs(a->Dict_0)[i].value,
            dict_pairs(b->Dict_0)[i].value,
        ) by {
            assert(copies_to(a, b, 1));
            assert forall|depth: nat| #[trigger]
                copies_to(dict_pairs(a->Dict_0)[i].value, dict_pairs(b->Dict_0)[i].value, depth) by {
                assert(copies_to(a, b, depth + 1));
            }
        }
    }
}

/// Errors about calls name the function and what is wrong, as Python words it.
pub proof fn law_call_errors_are_worded_as_in_python(
    e: ExtError,
    function: Seq<char>,
    name: Seq<char>,
    expected: Seq<char>,
    id: u64,
)
    ensures
        e.is_argument_type(function, name, expected) ==> rtext(e.exception_type) == "TypeError"@ && rtext(e.message)
            == function + "() argument '"@ + name + "' must be "@ + expected,
        e.is_missing_argument(function, name) ==> rtext(e.exception_type) == "TypeError"@ && rtext(e.message) == function
            + "() missing required argument: '"@ + name + "'"@,
        e.is_attribute_error(function, name) ==> rtext(e.exception_type) == "AttributeError"@ && rtext(e.message) == "'"@
            + function + "' object has no attribute '"@ + name + "'"@,
        e.is_unknown_function(function, name) ==> rtext(e.exception_type) == "AttributeError"@ && rtext(e.message)
            == "module '"@ + function + "' has no function '"@ + name + "'"@,
        e.is_invalid_handle(function, name, id) ==> rtext(e.exception_type) == "ValueError"@ && rtext(e.message)
            == function + "(): invalid "@ + name + " handle (id="@ + decimal(id as nat) + ")"@,
        e.is_integer_overflow(name) ==> rtext(e.exception_type) == "ValueError"@ && rtext(e.message) == name
            + " value does not fit in Monty's 64-bit integer range"@,
{
}

/// Kinds of values go by their Python names, and what an argument has to be is
/// said with an article.
pub proof fn law_kinds_go_by_their_python_names(value: ExtValue)
    ensures
        value is NoneValue ==> value.kind() == "NoneType"@,
        value is Bool ==> value.kind() == "bool"@ && bool::expected() == "a bool"@,
        value is Int ==> value.kind() == "int"@ && i64::expected() == "an int"@ && usize::expected()
            == "a non-negative int"@,
        value is Float ==> value.kind() == "float"@,
        value is Str ==> value.kind() == "str"@ && String::expected() == "a str"@ && <&str as FromExtValue>::expected()
            == "a str"@,
        value is Bytes ==> value.kind() == "bytes"@ && <&[u8] as FromExtValue>::expected() == "bytes"@,
        value is List ==> value.kind() == "list"@,
        value is Dict ==> value.kind() == "dict"@,
        value is Handle ==> value.kind() == "handle"@ && ExtHandle::expected() == "a handle"@,
{
}

/// An argument is converted exactly where it is accepted; else the error names
/// the function, the parameter and what was expected.
pub proof fn law_arguments_are_converted_or_named<'a, T: FromExtValue<'a>>(
    value: ExtValue,
    function: Seq<char>,
    parameter: Seq<char>,
    r: Result<T, ExtError>,
    some: Result<Option<T>, ExtError>,
)
    requires
        converts::<'a, T>(value, function, parameter, r),
        converts_some::<'a, T>(value, function, parameter, some),
    ensures
        T::accepts(value) ==> r is Ok && T::extracted(value, r->Ok_0) && some is Ok && some->Ok_0 is Some && T::extracted(
            value,
            some->Ok_0->Some_0,
        ),
        !T::accepts(value) ==> r is Err && r->Err_0.is_argument_type(function, parameter, T::expected()) && some is Err
            && some->Err_0.is_argument_type(function, parameter, T::expected()),
{
}

} // verus!
