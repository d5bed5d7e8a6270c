//! Binding the arguments of a call to the fields of a signature.
//!
//! Checks run in the order in which CPython makes them, so that a call with
//! several faults is answered with the same error.

use crate::from_args::{
    count_kind, positional, AtMostStyle, BadArgStyle, ErrorStyle, Field, FieldKind, Signature,
};
use crate::text::{cat2, same};
use vstd::prelude::*;

verus! {

/// A keyword argument of a call.
#[derive(Debug)]
pub struct KeywordArg {
    /// Its name; absent where the key is no string.
    pub name: Option<String>,
    /// Whether the name is an interned string.
    pub interned: bool,
    /// Whether its value converts to the type of the field it is for.
    pub converts: bool,
}

/// The arguments of a call. For each it is known whether its value converts to
/// the type of the field that it ends up in.
#[derive(Debug)]
pub struct CallArgs {
    pub positional: Vec<bool>,
    pub keywords: Vec<KeywordArg>,
}

/// An argument of a call, by its index.
#[derive(Clone, Copy, Debug, PartialEq, Eq, Structural)]
pub enum ArgRef {
    Positional(usize),
    Keyword(usize),
}

/// Wording of "too many arguments".
#[derive(Clone, Copy, Debug, PartialEq, Eq, Structural)]
pub enum TooManyWording {
    /// `{name} expected {max} arguments, got {actual}`
    ExpectedExact,
    /// `{name} takes at most {max} arguments ({actual} given)`, as methods say it
    Method,
    /// `function takes at most {max} arguments ({actual} given)`
    C,
    /// The same about positional arguments.
    CPositional,
    /// About positional arguments, or about all where the total is exceeded.
    CPositionalOrTotal(usize),
    /// As functions written in Python say it.
    Python,
}

/// Wording of an unknown keyword.
#[derive(Clone, Copy, Debug, PartialEq, Eq, Structural)]
pub enum UnknownWording {
    /// Without the name of the function.
    Anonymous,
    /// With the name of the function.
    Function,
    /// With the name given for such errors, else that of the function.
    ErrorName,
}

/// Wording of a missing argument or of one given twice.
#[derive(Clone, Copy, Debug, PartialEq, Eq, Structural)]
pub enum FieldWording {
    Python,
    C,
    NamedC,
}

/// Why the arguments of a call do not fit a signature. Fields and arguments
/// are given by their indices.
#[derive(Clone, Copy, Debug, PartialEq, Eq, Structural)]
pub enum BindError {
    KeywordsNotSupported,
    TooMany { count: TooManyWording, max: usize, actual: usize },
    ExpectedExact { required: usize, actual: usize },
    TooFew { required: usize, actual: usize },
    /// A value does not convert. With a style and a position the error names
    /// the argument, else it is the conversion's own.
    BadValue { arg: ArgRef, field: usize, style: Option<BadArgStyle>, pos: usize },
    NonStringKey { keyword: usize },
    PositionalOnly { field: usize },
    /// A field given both by position and by keyword.
    Conflict { wording: FieldWording, field: usize, pos: usize },
    /// A keyword-only field given twice.
    MultipleValues { field: usize },
    UnknownKeyword { unknown: UnknownWording, keyword: usize },
    Missing { wording: FieldWording, field: usize, pos: usize },
    MissingKeywordOnly { field: usize },
}

/// Where the value of each field comes from.
#[derive(Debug)]
pub struct Binding {
    /// For each field its argument; none where its default applies.
    pub slots: Vec<Option<ArgRef>>,
    /// The positional arguments that are collected.
    pub varargs: Vec<usize>,
    /// The keyword arguments that are collected.
    pub varkwargs: Vec<usize>,
}

/// Where the values of fields come from, and the first unknown keyword.
pub ghost struct BindState {
    pub slots: Seq<Option<ArgRef>>,
    pub varkwargs: Seq<usize>,
    pub unknown: Option<usize>,
}

// ---------------------------------------------------------------------------
// Counts
// ---------------------------------------------------------------------------

/// How many positional-only fields are required.
pub open spec fn count_required_pos_only(fields: Seq<Field>) -> nat
    decreases fields.len(),
{
    if fields.len() == 0 {
        0
    } else {
        count_required_pos_only(fields.drop_last()) + if fields.last().kind is PosOnly
            && !fields.last().decl.has_default { 1nat } else { 0nat }
    }
}

impl Signature {
    fn count(&self, positionals: bool, required: bool) -> (r: usize)
        ensures
            r == count_kind(self.fields@, positionals, required),
            r <= self.fields@.len(),
    {
        let mut n: usize = 0;
        let mut i: usize = 0;
        proof {
            assert(self.fields@.take(0).len() == 0);
        }
        while i < self.fields.len()
            invariant
                i <= self.fields@.len(),
                n <= i,
                n == count_kind(self.fields@.take(i as int), positionals, required),
            decreases self.fields@.len() - i,
        {
            proof {
                assert(self.fields@.take(i + 1).drop_last() =~= self.fields@.take(i as int));
                assert(self.fields@.take(i + 1).last() == self.fields@[i as int]);
            }
            let role: bool = match self.fields[i].kind {
                FieldKind::PosOnly | FieldKind::PosOrKeyword => positionals,
                FieldKind::KwOnly => !positionals,
                _ => false,
            };
            if role && (!required || !self.fields[i].decl.has_default) {
                n = n + 1;
            }
            i = i + 1;
        }
        proof {
            assert(self.fields@.take(self.fields@.len() as int) =~= self.fields@);
        }
        n
    }

    /// How many fields take a positional argument of their own.
    pub fn named_positional_count(&self) -> (r: usize)
        ensures
            r == self.max_positional(),
    {
        self.count(true, false)
    }

    /// How many fields are keyword-only.
    pub fn kw_only_count(&self) -> (r: usize)
        ensures
            r == count_kind(self.fields@, false, false),
    {
        self.count(false, false)
    }

    /// How many positional fields are required.
    pub fn required_positional_count(&self) -> (r: usize)
        ensures
            r == count_kind(self.fields@, true, true),
    {
        self.count(true, true)
    }

    /// How many positional-only fields are required.
    pub fn required_pos_only_count(&self) -> (r: usize)
        ensures
            r == count_required_pos_only(self.fields@),
    {
        let mut n: usize = 0;
        let mut i: usize = 0;
        proof {
            assert(self.fields@.take(0).len() == 0);
        }
        while i < self.fields.len()
            invariant
                i <= self.fields@.len(),
                n <= i,
                n == count_required_pos_only(self.fields@.take(i as int)),
            decreases self.fields@.len() - i,
        {
            proof {
                assert(self.fields@.take(i + 1).drop_last() =~= self.fields@.take(i as int));
                assert(self.fields@.take(i + 1).last() == self.fields@[i as int]);
            }
            let pos_only: bool = match self.fields[i].kind {
                FieldKind::PosOnly => true,
                _ => false,
            };
            if pos_only && !self.fields[i].decl.has_default {
                n = n + 1;
            }
            i = i + 1;
        }
        proof {
            assert(self.fields@.take(self.fields@.len() as int) =~= self.fields@);
        }
        n
    }

    // -----------------------------------------------------------------------
    // Wording
    // -----------------------------------------------------------------------

    /// Required positional-only fields make errors about counts those of C
    /// methods.
    pub open spec fn c_method_arity(self) -> bool {
        !self.attrs.expected_exact && count_required_pos_only(self.fields@) > 0
    }

    /// Whether errors about counts are those of C methods.
    pub fn use_c_method_arity_wording(&self) -> (r: bool)
        ensures
            r == self.c_method_arity(),
    {
        !self.attrs.expected_exact && self.required_pos_only_count() > 0
    }

    /// Functions written in C report unknown keywords after everything else.
    pub open spec fn defers_unknown(self) -> bool {
        !(self.attrs.error_style is Python)
    }

    /// Whether unknown keywords are reported after everything else.
    pub fn defer_unknown_kwarg(&self) -> (r: bool)
        ensures
            r == self.defers_unknown(),
    {
        match self.attrs.error_style {
            ErrorStyle::Python => false,
            _ => true,
        }
    }

    /// Wording of the check of the total count.
    pub open spec fn total_wording(self) -> TooManyWording {
        match self.attrs.error_style {
            ErrorStyle::C(AtMostStyle::Standard) => TooManyWording::C,
            ErrorStyle::C(AtMostStyle::Positional) => TooManyWording::CPositional,
            _ => TooManyWording::Method,
        }
    }

    /// Wording of too many positional arguments.
    pub open spec fn at_most_wording(self, max: nat) -> TooManyWording {
        if self.attrs.expected_exact {
            TooManyWording::ExpectedExact
        } else if self.c_method_arity() {
            TooManyWording::Method
        } else {
            match self.attrs.error_style {
                ErrorStyle::C(AtMostStyle::Standard) => TooManyWording::C,
                ErrorStyle::C(AtMostStyle::Positional) => TooManyWording::CPositionalOrTotal(
                    (max + count_kind(self.fields@, false, false)) as usize,
                ),
                ErrorStyle::NamedC => TooManyWording::Method,
                ErrorStyle::Python => TooManyWording::Python,
            }
        }
    }

    /// Wording of errors about one field.
    pub open spec fn field_wording(self) -> FieldWording {
        match self.attrs.error_style {
            ErrorStyle::C(_) => FieldWording::C,
            ErrorStyle::NamedC => FieldWording::NamedC,
            ErrorStyle::Python => FieldWording::Python,
        }
    }

    /// Chooses the wording of errors about one field.
    pub fn choose_field_wording(&self) -> (r: FieldWording)
        ensures
            r == self.field_wording(),
    {
        match self.attrs.error_style {
            ErrorStyle::C(_) => FieldWording::C,
            ErrorStyle::NamedC => FieldWording::NamedC,
            ErrorStyle::Python => FieldWording::Python,
        }
    }

    /// Chooses the wording of the check of the total count.
    pub fn choose_total(&self) -> (r: TooManyWording)
        ensures
            r == self.total_wording(),
    {
        match self.attrs.error_style {
            ErrorStyle::C(AtMostStyle::Standard) => TooManyWording::C,
            ErrorStyle::C(AtMostStyle::Positional) => TooManyWording::CPositional,
            _ => TooManyWording::Method,
        }
    }

    /// Chooses the wording of too many positional arguments.
    pub fn choose_at_most(&self, max: usize) -> (r: TooManyWording)
        requires
            self.wf(),
            max == self.max_positional(),
        ensures
            r == self.at_most_wording(max as nat),
    {
        if self.attrs.expected_exact {
            TooManyWording::ExpectedExact
        } else if self.use_c_method_arity_wording() {
            TooManyWording::Method
        } else {
            match self.attrs.error_style {
                ErrorStyle::C(AtMostStyle::Standard) => TooManyWording::C,
                ErrorStyle::C(AtMostStyle::Positional) => {
                    let keyword_only: usize = self.kw_only_count();
                    proof {
                        assert(self.fields.len() <= usize::MAX);
                        lemma_counts(self.fields@);
                    }
                    TooManyWording::CPositionalOrTotal(max + keyword_only)
                },
                ErrorStyle::NamedC => TooManyWording::Method,
                ErrorStyle::Python => TooManyWording::Python,
            }
        }
    }

    /// How a function names itself when a field is given twice.
    pub fn conflict_descriptor(&self) -> (r: String)
        ensures
            r@ == if self.attrs.error_style is NamedC { self.attrs.name@ + "()"@ } else { self.attrs.name@ },
    {
        match self.attrs.error_style {
            ErrorStyle::NamedC => cat2(self.attrs.name.as_str(), "()"),
            _ => self.attrs.name.clone(),
        }
    }

    // -----------------------------------------------------------------------
    // What binding gives
    // -----------------------------------------------------------------------

    /// What the checks find that come before any argument is looked at.
    pub open spec fn early_error(self, call: CallArgs) -> Option<BindError> {
        let given = call.positional@.len();
        let all = given + call.keywords@.len();
        if self.attrs.kwargs_not_supported_yet && call.keywords@.len() > 0 {
            Some(BindError::KeywordsNotSupported)
        } else if self.attrs.at_most_total && all > self.max_positional() {
            Some(
                BindError::TooMany {
                    count: self.total_wording(),
                    max: self.max_positional() as usize,
                    actual: all as usize,
                },
            )
        } else if self.attrs.expected_exact && given != count_kind(self.fields@, true, true) {
            Some(
                BindError::ExpectedExact {
                    required: count_kind(self.fields@, true, true) as usize,
                    actual: given as usize,
                },
            )
        } else if self.c_method_arity() && given < count_required_pos_only(self.fields@) {
            Some(
                BindError::TooFew {
                    required: count_required_pos_only(self.fields@) as usize,
                    actual: given as usize,
                },
            )
        } else {
            None
        }
    }

    /// How many positional arguments have a place.
    pub open spec fn placed(self, call: CallArgs) -> nat {
        if self.varargs_idx is Some || call.positional@.len() <= self.max_positional() {
            call.positional@.len()
        } else {
            self.max_positional()
        }
    }

    /// What is wrong with the positional arguments from `i` on.
    pub open spec fn positional_error(self, call: CallArgs, i: int) -> Option<BindError>
        decreases self.placed(call) - i,
    {
        if i < 0 || i >= self.placed(call) {
            if self.placed(call) < call.positional@.len() {
                Some(
                    BindError::TooMany {
                        count: self.at_most_wording(self.max_positional()),
                        max: self.max_positional() as usize,
                        actual: (call.positional@.len() + call.keywords@.len()) as usize,
                    },
                )
            } else {
                None
            }
        } else if !call.positional@[i] {
            Some(self.bad_positional(i))
        } else {
            self.positional_error(call, i + 1)
        }
    }

    /// The error of a positional argument that does not convert.
    pub open spec fn bad_positional(self, i: int) -> BindError {
        if i < self.max_positional() {
            BindError::BadValue {
                arg: ArgRef::Positional(i as usize),
                field: i as usize,
                style: self.attrs.bad_arg,
                pos: (i + 1) as usize,
            }
        } else {
            BindError::BadValue {
                arg: ArgRef::Positional(i as usize),
                field: self.varargs_idx->Some_0,
                style: None,
                pos: 0,
            }
        }
    }

    /// The state once positional arguments are in their places.
    pub open spec fn after_positionals(self, call: CallArgs) -> BindState {
        BindState {
            slots: Seq::new(
                self.fields@.len(),
                |f: int|
                    if f < self.max_positional() && f < call.positional@.len() {
                        Some(ArgRef::Positional(f as usize))
                    } else {
                        None
                    },
            ),
            varkwargs: Seq::empty(),
            unknown: None,
        }
    }

    /// The first positional-only field, from `from` on, that is known by this
    /// keyword.
    pub open spec fn pos_only_named(self, name: Seq<char>, from: int) -> Option<int>
        decreases self.fields@.len() - from,
    {
        if from < 0 || from >= self.fields@.len() {
            None
        } else if self.fields@[from].kind is PosOnly && self.fields@[from].decl.static_string is Some
            && self.fields@[from].decl.keyword@ == name {
            Some(from)
        } else {
            self.pos_only_named(name, from + 1)
        }
    }

    /// The first field, from `from` on, that takes this keyword.
    pub open spec fn field_named(self, name: Seq<char>, from: int) -> Option<int>
        decreases self.fields@.len() - from,
    {
        if from < 0 || from >= self.fields@.len() {
            None
        } else if (self.fields@[from].kind is PosOrKeyword || self.fields@[from].kind is KwOnly)
            && self.fields@[from].decl.keyword@ == name {
            Some(from)
        } else {
            self.field_named(name, from + 1)
        }
    }

    /// The place of a field among the positional ones; 0 for the others.
    pub open spec fn pos_of(self, f: int) -> usize {
        match self.fields@[f].pos_index {
            Some(pos) => pos,
            None => 0,
        }
    }

    /// The state after a keyword argument for the field `f`.
    pub open spec fn fill(self, st: BindState, f: int, k: int, arg: KeywordArg) -> Result<BindState, BindError> {
        if st.slots[f] is Some {
            if self.fields@[f].kind is PosOrKeyword {
                Err(
                    BindError::Conflict {
                        wording: self.field_wording(),
                        field: f as usize,
                        pos: self.pos_of(f),
                    },
                )
            } else {
                Err(BindError::MultipleValues { field: f as usize })
            }
        } else if !arg.converts {
            Err(
                BindError::BadValue {
                    arg: ArgRef::Keyword(k as usize),
                    field: f as usize,
                    style: self.attrs.bad_arg,
                    pos: self.pos_of(f),
                },
            )
        } else {
            Ok(BindState { slots: st.slots.update(f, Some(ArgRef::Keyword(k as usize))), ..st })
        }
    }

    /// The state after one keyword argument.
    pub open spec fn keyword_step(self, st: BindState, k: int, arg: KeywordArg) -> Result<BindState, BindError> {
        if arg.name is None {
            Err(BindError::NonStringKey { keyword: k as usize })
        } else {
            let name = arg.name->Some_0@;
            match self.pos_only_named(name, 0) {
                Some(f) => Err(BindError::PositionalOnly { field: f as usize }),
                None => match self.field_named(name, 0) {
                    Some(f) => self.fill(st, f, k, arg),
                    None => if self.varkwargs_idx is Some {
                        if arg.interned {
                            Ok(BindState { varkwargs: st.varkwargs.push(k as usize), ..st })
                        } else {
                            Err(BindError::NonStringKey { keyword: k as usize })
                        }
                    } else if self.defers_unknown() {
                        Ok(BindState { unknown: if st.unknown is Some { st.unknown } else { Some(k as usize) }, ..st })
                    } else {
                        Err(BindError::UnknownKeyword { unknown: UnknownWording::ErrorName, keyword: k as usize })
                    },
                },
            }
        }
    }

    /// The state after the first `n` keyword arguments.
    pub open spec fn after_keywords(self, call: CallArgs, n: int) -> Result<BindState, BindError>
        decreases n,
    {
        if n <= 0 {
            Ok(self.after_positionals(call))
        } else {
            match self.after_keywords(call, n - 1) {
                Err(err) => Err(err),
                Ok(st) => self.keyword_step(st, n - 1, call.keywords@[n - 1]),
            }
        }
    }

    /// The first field, from `f` on, that is required but has no value.
    pub open spec fn first_missing(self, slots: Seq<Option<ArgRef>>, f: int) -> Option<int>
        decreases self.fields@.len() - f,
    {
        if f < 0 || f >= self.fields@.len() {
            None
        } else if !(self.fields@[f].kind is Varargs) && !(self.fields@[f].kind is Varkwargs)
            && !self.fields@[f].decl.has_default && slots[f] is None {
            Some(f)
        } else {
            self.first_missing(slots, f + 1)
        }
    }

    /// The error of a required field without a value.
    pub open spec fn missing_error(self, f: int) -> BindError {
        if self.fields@[f].pos_index is Some {
            BindError::Missing { wording: self.field_wording(), field: f as usize, pos: self.pos_of(f) }
        } else {
            BindError::MissingKeywordOnly { field: f as usize }
        }
    }

    /// What is found once every argument has its place. Functions written in C
    /// report missing positional arguments before unknown keywords, and missing
    /// keyword-only ones last.
    pub open spec fn late_error(self, st: BindState) -> Option<BindError> {
        let missing = self.first_missing(st.slots, 0);
        if st.unknown is Some && !(missing is Some && positional(self.fields@[missing->Some_0].kind)) {
            Some(
                BindError::UnknownKeyword {
                    unknown: if self.attrs.error_style is NamedC {
                        UnknownWording::Function
                    } else {
                        UnknownWording::Anonymous
                    },
                    keyword: st.unknown->Some_0,
                },
            )
        } else {
            match missing {
                Some(f) => Some(self.missing_error(f)),
                None => None,
            }
        }
    }

    /// What binding the arguments of a call gives.
    pub open spec fn binds(self, call: CallArgs) -> Result<BindState, BindError> {
        match self.early_error(call) {
            Some(err) => Err(err),
            None => match self.positional_error(call, 0) {
                Some(err) => Err(err),
                None => match self.after_keywords(call, call.keywords@.len() as int) {
                    Err(err) => Err(err),
                    Ok(st) => match self.late_error(st) {
                        Some(err) => Err(err),
                        None => Ok(st),
                    },
                },
            },
        }
    }

    // -----------------------------------------------------------------------
    // Binding
    // -----------------------------------------------------------------------

    fn find_pos_only(&self, name: &str) -> (r: Option<usize>)
        ensures
            match self.pos_only_named(name@, 0) {
                Some(f) => r is Some && r->Some_0 == f && 0 <= f < self.fields@.len(),
                None => r is None,
            },
    {
        let mut i: usize = 0;
        while i < self.fields.len()
            invariant
                i <= self.fields@.len(),
                self.pos_only_named(name@, 0) == self.pos_only_named(name@, i as int),
            decreases self.fields@.len() - i,
        {
            let field: &Field = &self.fields[i];
            let pos_only: bool = match field.kind {
                FieldKind::PosOnly => true,
                _ => false,
            };
            if pos_only && field.decl.static_string.is_some() && same(field.decl.keyword.as_str(), name) {
                return Some(i);
            }
            i = i + 1;
        }
        None
    }

    fn find_field(&self, name: &str) -> (r: Option<usize>)
        ensures
            match self.field_named(name@, 0) {
                Some(f) => r is Some && r->Some_0 == f && 0 <= f < self.fields@.len(),
                None => r is None,
            },
    {
        let mut i: usize = 0;
        while i < self.fields.len()
            invariant
                i <= self.fields@.len(),
                self.field_named(name@, 0) == self.field_named(name@, i as int),
            decreases self.fields@.len() - i,
        {
            let field: &Field = &self.fields[i];
            let keyword: bool = match field.kind {
                FieldKind::PosOrKeyword | FieldKind::KwOnly => true,
                _ => false,
            };
            if keyword && same(field.decl.keyword.as_str(), name) {
                return Some(i);
            }
            i = i + 1;
        }
        None
    }

    fn find_missing(&self, slots: &Vec<Option<ArgRef>>) -> (r: Option<usize>)
        requires
            slots@.len() == self.fields@.len(),
        ensures
            match self.first_missing(slots@, 0) {
                Some(f) => r is Some && r->Some_0 == f && 0 <= f < self.fields@.len(),
                None => r is None,
            },
    {
        let mut i: usize = 0;
        while i < self.fields.len()
            invariant
                i <= self.fields@.len(),
                slots@.len() == self.fields@.len(),
                self.first_missing(slots@, 0) == self.first_missing(slots@, i as int),
            decreases self.fields@.len() - i,
        {
            let collects: bool = match self.fields[i].kind {
                FieldKind::Varargs | FieldKind::Varkwargs => true,
                _ => false,
            };
            if !collects && !self.fields[i].decl.has_default && slots[i].is_none() {
                return Some(i);
            }
            i = i + 1;
        }
        None
    }

    fn check_counts(&self, call: &CallArgs) -> (r: Result<(), BindError>)
        requires
            self.wf(),
            call.positional@.len() + call.keywords@.len() <= usize::MAX,
        ensures
            match self.early_error(*call) {
                Some(err) => r == Err::<(), BindError>(err),
                None => r is Ok,
            },
    {
        let given: usize = call.positional.len();
        let keywords: usize = call.keywords.len();
        if self.attrs.kwargs_not_supported_yet && keywords > 0 {
            return Err(BindError::KeywordsNotSupported);
        }
        if self.attrs.at_most_total {
            let max: usize = self.named_positional_count();
            if given + keywords > max {
                return Err(BindError::TooMany { count: self.choose_total(), max, actual: given + keywords });
            }
        }
        if self.attrs.expected_exact {
            let required: usize = self.required_positional_count();
            if given != required {
                return Err(BindError::ExpectedExact { required, actual: given });
            }
        }
        if self.use_c_method_arity_wording() {
            let required: usize = self.required_pos_only_count();
            if given < required {
                return Err(BindError::TooFew { required, actual: given });
            }
        }
        Ok(())
    }

    fn check_positionals(&self, call: &CallArgs) -> (r: Result<(), BindError>)
        requires
            self.wf(),
            call.positional@.len() + call.keywords@.len() <= usize::MAX,
        ensures
            match self.positional_error(*call, 0) {
                Some(err) => r == Err::<(), BindError>(err),
                None => r is Ok,
            },
    {
        let given: usize = call.positional.len();
        let max: usize = self.named_positional_count();
        let placed: usize = if self.varargs_idx.is_some() || given <= max { given } else { max };
        let ghost total = self.fields.len();
        let mut i: usize = 0;
        while i < placed
            invariant
                i <= placed <= given,
                given == call.positional@.len(),
                placed == self.placed(*call),
                max == self.max_positional(),
                max <= total,
                self.varargs_idx is None ==> placed <= max,
                self.positional_error(*call, 0) == self.positional_error(*call, i as int),
            decreases placed - i,
        {
            if !call.positional[i] {
                if i < max {
                    return Err(
                        BindError::BadValue {
                            arg: ArgRef::Positional(i),
                            field: i,
                            style: self.attrs.bad_arg,
                            pos: i + 1,
                        },
                    );
                }
                return match self.varargs_idx {
                    Some(varargs) => Err(
                        BindError::BadValue { arg: ArgRef::Positional(i), field: varargs, style: None, pos: 0 },
                    ),
                    None => Ok(()),
                };
            }
            i = i + 1;
        }
        if placed < given {
            return Err(
                BindError::TooMany {
                    count: self.choose_at_most(max),
                    max,
                    actual: given + call.keywords.len(),
                },
            );
        }
        Ok(())
    }

    /// Binds the arguments of a call to the fields.
    pub fn bind(&self, call: &CallArgs) -> (r: Result<Binding, BindError>)
        requires
            self.wf(),
            call.positional@.len() + call.keywords@.len() <= usize::MAX,
        ensures
            match self.binds(*call) {
                Err(err) => r == Err::<Binding, BindError>(err),
                Ok(st) => {
                    &&& r is Ok
                    &&& r->Ok_0.slots@ == st.slots
                    &&& r->Ok_0.varkwargs@ == st.varkwargs
                    &&& r->Ok_0.varargs@.len() == if call.positional@.len() > self.max_positional() {
                        call.positional@.len() - self.max_positional()
                    } else {
                        0
                    }
                    &&& forall|i: int|
                        0 <= i < r->Ok_0.varargs@.len() ==> #[trigger] r->Ok_0.varargs@[i] == self.max_positional() + i
                },
            },
    {
        match self.check_counts(call) {
            Err(err) => return Err(err),
            Ok(()) => {},
        }
        match self.check_positionals(call) {
            Err(err) => return Err(err),
            Ok(()) => {},
        }
        let given: usize = call.positional.len();
        let max: usize = self.named_positional_count();
        let mut slots: Vec<Option<ArgRef>> = Vec::new();
        let mut f: usize = 0;
        while f < self.fields.len()
            invariant
                f <= self.fields@.len(),
                given == call.positional@.len(),
                max == self.max_positional(),
                slots@.len() == f,
                forall|j: int| 0 <= j < f ==> #[trigger] slots@[j] == self.after_positionals(*call).slots[j],
            decreases self.fields@.len() - f,
        {
            if f < max && f < given {
                slots.push(Some(ArgRef::Positional(f)));
            } else {
                slots.push(None);
            }
            f = f + 1;
        }
        let mut varargs: Vec<usize> = Vec::new();
        let mut v: usize = max;
        while v < given
            invariant
                max <= v,
                v <= given || v == max,
                varargs@.len() == v - max,
                forall|i: int| 0 <= i < varargs@.len() ==> #[trigger] varargs@[i] == max + i,
            decreases given - v,
        {
            varargs.push(v);
            v = v + 1;
        }
        let mut varkwargs: Vec<usize> = Vec::new();
        let mut unknown: Option<usize> = None;
        let mut k: usize = 0;
        proof {
            assert(slots@ =~= self.after_positionals(*call).slots);
            assert(varkwargs@ =~= Seq::<usize>::empty());
        }
        while k < call.keywords.len()
            invariant
                k <= call.keywords@.len(),
                self.wf(),
                slots@.len() == self.fields@.len(),
                self.early_error(*call) is None,
                self.positional_error(*call, 0) is None,
                self.after_keywords(*call, k as int) == Ok::<BindState, BindError>(
                    BindState { slots: slots@, varkwargs: varkwargs@, unknown },
                ),
            decreases call.keywords@.len() - k,
        {
            let arg: &KeywordArg = &call.keywords[k];
            let ghost st = BindState { slots: slots@, varkwargs: varkwargs@, unknown };
            proof {
                if self.keyword_step(st, k as int, *arg) is Err {
                    lemma_keyword_error(*self, *call, k + 1);
                }
            }
            match &arg.name {
                None => return Err(BindError::NonStringKey { keyword: k }),
                Some(name) => {
                    if let Some(field) = self.find_pos_only(name.as_str()) {
                        return Err(BindError::PositionalOnly { field });
                    }
                    match self.find_field(name.as_str()) {
                        Some(field) => {
                            let pos: usize = match self.fields[field].pos_index {
                                Some(pos) => pos,
                                None => 0,
                            };
                            if slots[field].is_some() {
                                return match self.fields[field].kind {
                                    FieldKind::PosOrKeyword => Err(
                                        BindError::Conflict { wording: self.choose_field_wording(), field, pos },
                                    ),
                                    _ => Err(BindError::MultipleValues { field }),
                                };
                            }
                            if !arg.converts {
                                return Err(
                                    BindError::BadValue {
                                        arg: ArgRef::Keyword(k),
                                        field,
                                        style: self.attrs.bad_arg,
                                        pos,
                                    },
                                );
                            }
                            slots[field] = Some(ArgRef::Keyword(k));
                        },
                        None => {
                            if self.varkwargs_idx.is_some() {
                                if !arg.interned {
                                    return Err(BindError::NonStringKey { keyword: k });
                                }
                                varkwargs.push(k);
                            } else if self.defer_unknown_kwarg() {
                                if unknown.is_none() {
                                    unknown = Some(k);
                                }
                            } else {
                                return Err(
                                    BindError::UnknownKeyword { unknown: UnknownWording::ErrorName, keyword: k },
                                );
                            }
                        },
                    }
                },
            }
            k = k + 1;
        }
        let missing: Option<usize> = self.find_missing(&slots);
        let positional_missing: bool = match missing {
            Some(field) => match self.fields[field].kind {
                FieldKind::PosOnly | FieldKind::PosOrKeyword => true,
                _ => false,
            },
            None => false,
        };
        if let Some(keyword) = unknown {
            if !positional_missing {
                let unknown: UnknownWording = match self.attrs.error_style {
                    ErrorStyle::NamedC => UnknownWording::Function,
                    _ => UnknownWording::Anonymous,
                };
                return Err(BindError::UnknownKeyword { unknown, keyword });
            }
        }
        if let Some(field) = missing {
            return Err(
                match self.fields[field].pos_index {
                    Some(pos) => BindError::Missing { wording: self.choose_field_wording(), field, pos },
                    None => BindError::MissingKeywordOnly { field },
                },
            );
        }
        Ok(Binding { slots, varargs, varkwargs })
    }
}

proof fn lemma_counts(fields: Seq<Field>)
    ensures
        count_kind(fields, true, false) + count_kind(fields, false, false) <= fields.len(),
    decreases fields.len(),
{
    if fields.len() > 0 {
        lemma_counts(fields.drop_last());
    }
}

proof fn lemma_keyword_error(sig: Signature, call: CallArgs, n: int)
    requires
        0 <= n <= call.keywords@.len(),
        sig.after_keywords(call, n) is Err,
    ensures
        sig.after_keywords(call, call.keywords@.len() as int) == sig.after_keywords(call, n),
    decreases call.keywords@.len() - n,
{
    if n < call.keywords@.len() {
        lemma_keyword_error(sig, call, n + 1);
    }
}

/// What holds of a state after the first `n` keyword arguments.
spec fn state_inv(sig: Signature, call: CallArgs, st: BindState, n: int) -> bool {
    &&& st.slots.len() == sig.fields@.len()
    &&& forall|f: int|
        0 <= f < st.slots.len() ==> match #[trigger] st.slots[f] {
            Some(ArgRef::Keyword(k)) => {
                &&& k < n
                &&& call.keywords@[k as int].name is Some
                &&& sig.field_named(call.keywords@[k as int].name->Some_0@, 0) == Some(f)
            },
            Some(ArgRef::Positional(i)) => i == f && f < sig.max_positional() && f < call.positional@.len(),
            None => !(f < sig.max_positional() && f < call.positional@.len()),
        }
    &&& forall|f: int|
        0 <= f < sig.max_positional() && f < call.positional@.len() ==> #[trigger] st.slots[f] == Some(
            ArgRef::Positional(f as usize),
        )
    &&& forall|k: int| 0 <= k < n ==> #[trigger] has_place(st, k) || st.unknown is Some
}

/// Whether a keyword argument is in a slot or collected.
pub open spec fn has_place(st: BindState, k: int) -> bool {
    ||| exists|f: int| 0 <= f < st.slots.len() && #[trigger] st.slots[f] == Some(ArgRef::Keyword(k as usize))
    ||| exists|i: int| 0 <= i < st.varkwargs.len() && #[trigger] st.varkwargs[i] == k
}

proof fn lemma_field_named(sig: Signature, name: Seq<char>, from: int)
    requires
        0 <= from,
    ensures
        match sig.field_named(name, from) {
            Some(f) => from <= f < sig.fields@.len() && sig.fields@[f].decl.keyword@ == name,
            None => true,
        },
    decreases sig.fields@.len() - from,
{
    if from < sig.fields@.len() {
        lemma_field_named(sig, name, from + 1);
    }
}

proof fn lemma_state_inv(sig: Signature, call: CallArgs, n: int)
    requires
        sig.wf(),
        0 <= n <= call.keywords@.len(),
        call.positional@.len() <= usize::MAX,
        call.keywords@.len() <= usize::MAX,
        sig.fields@.len() <= usize::MAX,
        sig.after_keywords(call, n) is Ok,
    ensures
        state_inv(sig, call, sig.after_keywords(call, n)->Ok_0, n),
    decreases n,
{
    if n > 0 {
        lemma_state_inv(sig, call, n - 1);
        let before = sig.after_keywords(call, n - 1)->Ok_0;
        let after = sig.after_keywords(call, n)->Ok_0;
        let arg = call.keywords@[n - 1];
        let name = arg.name->Some_0@;
        lemma_field_named(sig, name, 0);
        match sig.field_named(name, 0) {
            Some(f) => {
                assert(after.unknown == before.unknown);
                assert(after.slots == before.slots.update(f, Some(ArgRef::Keyword((n - 1) as usize))));
                assert(before.slots[f] is None);
                assert forall|k: int| 0 <= k < n implies #[trigger] has_place(after, k) || after.unknown is Some by {
                    if k == n - 1 {
                        assert(after.slots[f] == Some(ArgRef::Keyword(k as usize)));
                    } else {
                        assert(has_place(before, k) || before.unknown is Some);
                        if exists|g: int|
                            0 <= g < before.slots.len() && #[trigger] before.slots[g] == Some(
                                ArgRef::Keyword(k as usize),
                            ) {
                            let g = choose|g: int|
                                0 <= g < before.slots.len() && #[trigger] before.slots[g] == Some(
                                    ArgRef::Keyword(k as usize),
                                );
                            assert(after.slots[g] == Some(ArgRef::Keyword(k as usize)));
                        }
                        if exists|i: int| 0 <= i < before.varkwargs.len() && #[trigger] before.varkwargs[i] == k {
                            let i = choose|i: int| 0 <= i < before.varkwargs.len() && #[trigger] before.varkwargs[i] == k;
                            assert(after.varkwargs[i] == k);
                        }
                    }
                }
                assert forall|g: int|
                    0 <= g < sig.max_positional() && g < call.positional@.len() implies #[trigger] after.slots[g] == Some(
                    ArgRef::Positional(g as usize),
                ) by {
                    assert(before.slots[g] == Some(ArgRef::Positional(g as usize)));
                }
                assert forall|g: int| 0 <= g < after.slots.len() implies match #[trigger] after.slots[g] {
                    Some(ArgRef::Keyword(k)) => {
                        &&& k < n
                        &&& call.keywords@[k as int].name is Some
                        &&& sig.field_named(call.keywords@[k as int].name->Some_0@, 0) == Some(g)
                    },
                    Some(ArgRef::Positional(i)) => i == g && g < sig.max_positional() && g < call.positional@.len(),
                    None => !(g < sig.max_positional() && g < call.positional@.len()),
                } by {
                    if g != f {
                        assert(after.slots[g] == before.slots[g]);
                    }
                }
            },
            None => {
                assert(after.slots == before.slots);
                assert(before.unknown is Some ==> after.unknown is Some);
                if sig.varkwargs_idx is Some {
                    assert(after.varkwargs == before.varkwargs.push((n - 1) as usize));
                } else {
                    assert(after.unknown is Some);
                }
                assert forall|k: int| 0 <= k < n implies #[trigger] has_place(after, k) || after.unknown is Some by {
                    if k == n - 1 {
                        if sig.varkwargs_idx is Some {
                            assert(after.varkwargs[before.varkwargs.len() as int] == k);
                        }
                    } else {
                        assert(has_place(before, k) || before.unknown is Some);
                        if exists|g: int|
                            0 <= g < before.slots.len() && #[trigger] before.slots[g] == Some(
                                ArgRef::Keyword(k as usize),
                            ) {
                            let g = choose|g: int|
                                0 <= g < before.slots.len() && #[trigger] before.slots[g] == Some(
                                    ArgRef::Keyword(k as usize),
                                );
                            assert(after.slots[g] == Some(ArgRef::Keyword(k as usize)));
                        }
                        if exists|i: int| 0 <= i < before.varkwargs.len() && #[trigger] before.varkwargs[i] == k {
                            let i = choose|i: int| 0 <= i < before.varkwargs.len() && #[trigger] before.varkwargs[i] == k;
                            assert(after.varkwargs[i] == k);
                        }
                    }
                }
            },
        }
    }
}

proof fn lemma_none_missing(sig: Signature, slots: Seq<Option<ArgRef>>, from: int)
    requires
        0 <= from,
        sig.first_missing(slots, from) is None,
    ensures
        forall|f: int|
            from <= f < sig.fields@.len() && !((#[trigger] sig.fields@[f]).kind is Varargs) && !(sig.fields@[f].kind is Varkwargs)
                && !sig.fields@[f].decl.has_default ==> slots[f] is Some,
    decreases sig.fields@.len() - from,
{
    if from < sig.fields@.len() {
        lemma_none_missing(sig, slots, from + 1);
    }
}

/// When a call binds, every required field has a value, every positional
/// argument is in the field of its position or collected, and every keyword
/// argument is in the one field of its name or collected.
pub proof fn law_bound_calls_lose_nothing(sig: Signature, call: CallArgs)
    requires
        sig.wf(),
        sig.binds(call) is Ok,
        call.positional@.len() <= usize::MAX,
        call.keywords@.len() <= usize::MAX,
        sig.fields@.len() <= usize::MAX,
    ensures
        ({
            let st = sig.binds(call)->Ok_0;
            &&& st.slots.len() == sig.fields@.len()
            &&& forall|f: int|
                0 <= f < sig.fields@.len() && !((#[trigger] sig.fields@[f]).kind is Varargs) && !(
                sig.fields@[f].kind is Varkwargs) && !sig.fields@[f].decl.has_default ==> st.slots[f] is Some
            &&& forall|i: int|
                0 <= i < sig.max_positional() && i < call.positional@.len() ==> #[trigger] st.slots[i] == Some(
                    ArgRef::Positional(i as usize),
                )
            &&& call.positional@.len() > sig.max_positional() ==> sig.varargs_idx is Some
            &&& forall|k: int| 0 <= k < call.keywords@.len() ==> #[trigger] has_place(st, k)
            &&& forall|f: int, g: int|
                0 <= f < st.slots.len() && 0 <= g < st.slots.len() && (#[trigger] st.slots[f]) is Some
                    && st.slots[f] == (#[trigger] st.slots[g]) ==> f == g
        }),
{
    let st = sig.binds(call)->Ok_0;
    lemma_state_inv(sig, call, call.keywords@.len() as int);
    lemma_none_missing(sig, st.slots, 0);
    lemma_all_placed(sig, call, 0);
}

proof fn lemma_all_placed(sig: Signature, call: CallArgs, i: int)
    requires
        0 <= i <= sig.placed(call),
        sig.positional_error(call, i) is None,
    ensures
        sig.placed(call) >= call.positional@.len(),
    decreases sig.placed(call) - i,
{
    if i < sig.placed(call) {
        lemma_all_placed(sig, call, i + 1);
    }
}

// ---------------------------------------------------------------------------
// Which calls bind, to what, and why the others do not
// ---------------------------------------------------------------------------

/// How many fields have a place for a positional argument.
pub open spec fn places(sig: Signature) -> nat {
    sig.fields@.filter(|f: Field| f.kind is PosOnly || f.kind is PosOrKeyword).len()
}

/// How many of those fields have no default.
pub open spec fn needed_places(sig: Signature) -> nat {
    sig.fields@.filter(|f: Field| (f.kind is PosOnly || f.kind is PosOrKeyword) && !f.decl.has_default).len()
}

/// How many positional-only fields have no default.
pub open spec fn needed_pos_only(sig: Signature) -> nat {
    sig.fields@.filter(|f: Field| f.kind is PosOnly && !f.decl.has_default).len()
}

/// Whether a field collects the positional arguments that are left.
pub open spec fn collects_positionals(sig: Signature) -> bool {
    exists|f: int| 0 <= f < sig.fields@.len() && (#[trigger] sig.fields@[f]).kind is Varargs
}

/// Whether a field collects the keyword arguments that are left.
pub open spec fn collects_keywords(sig: Signature) -> bool {
    exists|f: int| 0 <= f < sig.fields@.len() && (#[trigger] sig.fields@[f]).kind is Varkwargs
}

/// Whether a field can be given under this name.
pub open spec fn answers_to(field: Field, name: Seq<char>) -> bool {
    (field.kind is PosOrKeyword || field.kind is KwOnly) && field.decl.keyword@ == name
}

/// Whether a field is the one that is given under this name.
pub open spec fn takes_keyword(sig: Signature, f: int, name: Seq<char>) -> bool {
    &&& 0 <= f < sig.fields@.len()
    &&& answers_to(sig.fields@[f], name)
    &&& forall|e: int| 0 <= e < f ==> !answers_to(#[trigger] sig.fields@[e], name)
}

/// Whether some field can be given under this name.
pub open spec fn known_name(sig: Signature, name: Seq<char>) -> bool {
    exists|e: int| 0 <= e < sig.fields@.len() && answers_to(#[trigger] sig.fields@[e], name)
}

/// Whether a field has this name but takes a positional argument only.
pub open spec fn shuns_keyword(field: Field, name: Seq<char>) -> bool {
    field.kind is PosOnly && field.decl.static_string is Some && field.decl.keyword@ == name
}

/// Whether the name is that of a field that takes a positional argument only.
pub open spec fn barred_name(sig: Signature, name: Seq<char>) -> bool {
    exists|e: int| 0 <= e < sig.fields@.len() && shuns_keyword(#[trigger] sig.fields@[e], name)
}

/// Whether a positional argument of the call fills the field.
pub open spec fn given_by_position(sig: Signature, call: CallArgs, f: int) -> bool {
    &&& sig.fields@[f].kind is PosOnly || sig.fields@[f].kind is PosOrKeyword
    &&& f < call.positional@.len()
}

/// Whether a keyword argument of the call has this name.
pub open spec fn has_name(call: CallArgs, k: int, name: Seq<char>) -> bool {
    call.keywords@[k].name is Some && call.keywords@[k].name->Some_0@ == name
}

/// Whether a keyword argument before the `k`-th has this name.
pub open spec fn named_before(call: CallArgs, k: int, name: Seq<char>) -> bool {
    exists|j: int| 0 <= j < k && #[trigger] has_name(call, j, name)
}

/// Whether a keyword argument can go where it belongs: into a field that has
/// no value yet, or among those that are collected or reported later.
pub open spec fn keyword_fits(sig: Signature, call: CallArgs, k: int) -> bool {
    let arg = call.keywords@[k];
    &&& arg.name is Some
    &&& !barred_name(sig, arg.name->Some_0@)
    &&& if known_name(sig, arg.name->Some_0@) {
        &&& arg.converts
        &&& !named_before(call, k, arg.name->Some_0@)
        &&& forall|f: int| #[trigger] takes_keyword(sig, f, arg.name->Some_0@) ==> !given_by_position(sig, call, f)
    } else if collects_keywords(sig) {
        arg.interned
    } else {
        !(sig.attrs.error_style is Python)
    }
}

/// Whether the call meets the options on the number of its arguments.
pub open spec fn counts_met(sig: Signature, call: CallArgs) -> bool {
    &&& sig.attrs.kwargs_not_supported_yet ==> call.keywords@.len() == 0
    &&& sig.attrs.at_most_total ==> call.positional@.len() + call.keywords@.len() <= places(sig)
    &&& sig.attrs.expected_exact ==> call.positional@.len() == needed_places(sig)
    &&& !sig.attrs.expected_exact ==> call.positional@.len() >= needed_pos_only(sig)
}

/// Whether every positional argument converts and has a place.
pub open spec fn positionals_fit(sig: Signature, call: CallArgs) -> bool {
    &&& call.positional@.len() <= places(sig) || collects_positionals(sig)
    &&& forall|i: int| 0 <= i < call.positional@.len() ==> #[trigger] call.positional@[i]
}

/// Whether one of the first `n` keyword arguments is for the field.
pub open spec fn named_by_keyword(sig: Signature, call: CallArgs, f: int, n: int) -> bool {
    exists|k: int|
        {
            &&& 0 <= k < n
            &&& (#[trigger] call.keywords@[k]).name is Some
            &&& takes_keyword(sig, f, call.keywords@[k].name->Some_0@)
        }
}

/// Whether a field needs a value and the call gives it none.
pub open spec fn left_out(sig: Signature, call: CallArgs, f: int) -> bool {
    &&& sig.fields@[f].kind is PosOnly || sig.fields@[f].kind is PosOrKeyword || sig.fields@[f].kind is KwOnly
    &&& !sig.fields@[f].decl.has_default
    &&& !given_by_position(sig, call, f)
    &&& !named_by_keyword(sig, call, f, call.keywords@.len() as int)
}

/// Whether a keyword argument is for no field, and none collects it.
pub open spec fn unknown_keyword(sig: Signature, call: CallArgs, k: int) -> bool {
    &&& call.keywords@[k].name is Some
    &&& !known_name(sig, call.keywords@[k].name->Some_0@)
    &&& !collects_keywords(sig)
}

proof fn lemma_places(sig: Signature, n: int)
    requires
        0 <= n <= sig.fields@.len(),
    ensures
        ({
            let fields = sig.fields@.take(n);
            &&& fields.filter(|f: Field| f.kind is PosOnly || f.kind is PosOrKeyword).len() == count_kind(fields, true, false)
            &&& fields.filter(
                |f: Field| (f.kind is PosOnly || f.kind is PosOrKeyword) && !f.decl.has_default,
            ).len() == count_kind(fields, true, true)
            &&& fields.filter(|f: Field| f.kind is PosOnly && !f.decl.has_default).len() == count_required_pos_only(fields)
            &&& n == sig.fields@.len() ==> fields == sig.fields@
        }),
    decreases n,
{
    reveal(Seq::filter);
    if n > 0 {
        lemma_places(sig, n - 1);
        assert(sig.fields@.take(n).drop_last() =~= sig.fields@.take(n - 1));
    }
    if n == sig.fields@.len() {
        assert(sig.fields@.take(n) =~= sig.fields@);
    }
}

proof fn lemma_collectors(sig: Signature)
    requires
        sig.wf(),
    ensures
        collects_positionals(sig) <==> sig.varargs_idx is Some,
        collects_keywords(sig) <==> sig.varkwargs_idx is Some,
{
    assert(sig.fields.len() <= usize::MAX);
    if sig.varargs_idx is Some {
        assert(sig.fields@[sig.varargs_idx->Some_0 as int].kind is Varargs);
    }
    if sig.varkwargs_idx is Some {
        assert(sig.fields@[sig.varkwargs_idx->Some_0 as int].kind is Varkwargs);
    }
}

proof fn lemma_takes(sig: Signature, name: Seq<char>, from: int)
    requires
        0 <= from,
        forall|e: int| 0 <= e < from && e < sig.fields@.len() ==> !answers_to(#[trigger] sig.fields@[e], name),
    ensures
        match sig.field_named(name, from) {
            Some(f) => takes_keyword(sig, f, name) && known_name(sig, name),
            None => !known_name(sig, name),
        },
        forall|f: int| #[trigger] takes_keyword(sig, f, name) <==> sig.field_named(name, from) == Some(f),
    decreases sig.fields@.len() - from,
{
    if from < sig.fields@.len() {
        if answers_to(sig.fields@[from], name) {
            assert(takes_keyword(sig, from, name));
        } else {
            lemma_takes(sig, name, from + 1);
        }
    }
}

proof fn lemma_barred(sig: Signature, name: Seq<char>, from: int)
    requires
        0 <= from,
        forall|e: int| 0 <= e < from && e < sig.fields@.len() ==> !shuns_keyword(#[trigger] sig.fields@[e], name),
    ensures
        match sig.pos_only_named(name, from) {
            Some(f) => {
                &&& from <= f < sig.fields@.len()
                &&& shuns_keyword(sig.fields@[f], name)
                &&& barred_name(sig, name)
                &&& forall|e: int| 0 <= e < f ==> !shuns_keyword(#[trigger] sig.fields@[e], name)
            },
            None => !barred_name(sig, name),
        },
    decreases sig.fields@.len() - from,
{
    if from < sig.fields@.len() && !shuns_keyword(sig.fields@[from], name) {
        lemma_barred(sig, name, from + 1);
    }
}

/// Where the arguments stand once the first `n` keyword arguments have their
/// places.
pub open spec fn arguments_in_place(sig: Signature, call: CallArgs, st: BindState, n: int) -> bool {
    &&& st.slots.len() == sig.fields@.len()
    &&& forall|f: int|
        0 <= f < sig.fields@.len() ==> match #[trigger] st.slots[f] {
            Some(ArgRef::Positional(i)) => i == f && given_by_position(sig, call, f),
            Some(ArgRef::Keyword(k)) => {
                &&& !given_by_position(sig, call, f)
                &&& k < n
                &&& call.keywords@[k as int].name is Some
                &&& takes_keyword(sig, f, call.keywords@[k as int].name->Some_0@)
            },
            None => {
                &&& !given_by_position(sig, call, f)
                &&& !named_by_keyword(sig, call, f, n)
            },
        }
    &&& forall|i: int|
        0 <= i < st.varkwargs.len() ==> {
            let k = #[trigger] st.varkwargs[i];
            &&& k < n
            &&& collects_keywords(sig)
            &&& call.keywords@[k as int].name is Some
            &&& !known_name(sig, call.keywords@[k as int].name->Some_0@)
        }
    &&& forall|i: int, j: int|
        0 <= i < j < st.varkwargs.len() ==> #[trigger] st.varkwargs[i] < #[trigger] st.varkwargs[j]
    &&& forall|k: int|
        0 <= k < n && collects_keywords(sig) && (#[trigger] call.keywords@[k]).name is Some && !known_name(
            sig,
            call.keywords@[k].name->Some_0@,
        ) ==> st.varkwargs.contains(k as usize)
    &&& match st.unknown {
        Some(u) => {
            &&& u < n
            &&& unknown_keyword(sig, call, u as int)
            &&& forall|k: int| 0 <= k < u ==> !#[trigger] unknown_keyword(sig, call, k)
        },
        None => forall|k: int| 0 <= k < n ==> !#[trigger] unknown_keyword(sig, call, k),
    }
}

/// Why a keyword argument cannot go where it belongs.
pub open spec fn keyword_refusal(sig: Signature, call: CallArgs, k: int, err: BindError) -> bool {
    let arg = call.keywords@[k];
    let name = arg.name->Some_0@;
    match err {
        BindError::NonStringKey { keyword } => {
            &&& keyword == k
            &&& arg.name is None || {
                &&& !barred_name(sig, name)
                &&& !known_name(sig, name)
                &&& collects_keywords(sig)
                &&& !arg.interned
            }
        },
        BindError::PositionalOnly { field } => {
            &&& arg.name is Some
            &&& field < sig.fields@.len()
            &&& shuns_keyword(sig.fields@[field as int], name)
            &&& forall|e: int| 0 <= e < field ==> !shuns_keyword(#[trigger] sig.fields@[e], name)
        },
        BindError::Conflict { wording, field, pos } => {
            &&& arg.name is Some
            &&& !barred_name(sig, name)
            &&& takes_keyword(sig, field as int, name)
            &&& sig.fields@[field as int].kind is PosOrKeyword
            &&& given_by_position(sig, call, field as int) || named_before(call, k, name)
            &&& pos == field + 1
            &&& match sig.attrs.error_style {
                ErrorStyle::Python => wording is Python,
                ErrorStyle::C(_) => wording is C,
                ErrorStyle::NamedC => wording is NamedC,
            }
        },
        BindError::MultipleValues { field } => {
            &&& arg.name is Some
            &&& !barred_name(sig, name)
            &&& takes_keyword(sig, field as int, name)
            &&& sig.fields@[field as int].kind is KwOnly
            &&& named_before(call, k, name)
        },
        BindError::BadValue { arg: place, field, style, pos } => {
            &&& arg.name is Some
            &&& !barred_name(sig, name)
            &&& takes_keyword(sig, field as int, name)
            &&& !given_by_position(sig, call, field as int)
            &&& !named_before(call, k, name)
            &&& !arg.converts
            &&& place == ArgRef::Keyword(k as usize)
            &&& style == sig.attrs.bad_arg
            &&& pos == if sig.fields@[field as int].kind is PosOrKeyword { field + 1 } else { 0 }
        },
        BindError::UnknownKeyword { unknown, keyword } => {
            &&& keyword == k
            &&& !barred_name(sig, name)
            &&& unknown_keyword(sig, call, k)
            &&& sig.attrs.error_style is Python
            &&& unknown is ErrorName
        },
        _ => false,
    }
}

proof fn lemma_keyword_step(sig: Signature, call: CallArgs, st: BindState, k: int)
    requires
        sig.wf(),
        0 <= k < call.keywords@.len() <= usize::MAX,
        call.positional@.len() <= usize::MAX,
        arguments_in_place(sig, call, st, k),
    ensures
        match sig.keyword_step(st, k, call.keywords@[k]) {
            Ok(after) => keyword_fits(sig, call, k) && arguments_in_place(sig, call, after, k + 1),
            Err(err) => !keyword_fits(sig, call, k) && keyword_refusal(sig, call, k, err),
        },
{
    let arg = call.keywords@[k];
    assert(sig.fields.len() <= usize::MAX);
    lemma_collectors(sig);
    if arg.name is Some {
        let name = arg.name->Some_0@;
        lemma_barred(sig, name, 0);
        lemma_takes(sig, name, 0);
        if sig.pos_only_named(name, 0) is None {
            match sig.field_named(name, 0) {
                Some(f) => {
                    assert(takes_keyword(sig, f, name));
                    if st.slots[f] is Some {
                        match st.slots[f]->Some_0 {
                            ArgRef::Positional(i) => {
                                assert(given_by_position(sig, call, f));
                            },
                            ArgRef::Keyword(j) => {
                                assert(takes_keyword(sig, f, call.keywords@[j as int].name->Some_0@));
                                assert(has_name(call, j as int, name));
                                assert(named_before(call, k, name));
                            },
                        }
                    } else {
                        assert(!given_by_position(sig, call, f));
                        if named_before(call, k, name) {
                            let j = choose|j: int| 0 <= j < k && #[trigger] has_name(call, j, name);
                            assert(call.keywords@[j].name is Some);
                            assert(takes_keyword(sig, f, call.keywords@[j].name->Some_0@));
                            assert(false);
                        }
                        if arg.converts {
                            let after = sig.keyword_step(st, k, arg)->Ok_0;
                            assert(after.slots == st.slots.update(f, Some(ArgRef::Keyword(k as usize))));
                            assert forall|g: int| 0 <= g < sig.fields@.len() implies match #[trigger] after.slots[g] {
                                Some(ArgRef::Positional(i)) => i == g && given_by_position(sig, call, g),
                                Some(ArgRef::Keyword(j)) => {
                                    &&& !given_by_position(sig, call, g)
                                    &&& j < k + 1
                                    &&& call.keywords@[j as int].name is Some
                                    &&& takes_keyword(sig, g, call.keywords@[j as int].name->Some_0@)
                                },
                                None => {
                                    &&& !given_by_position(sig, call, g)
                                    &&& !named_by_keyword(sig, call, g, k + 1)
                                },
                            } by {
                                if g != f {
                                    assert(after.slots[g] == st.slots[g]);
                                    assert(!takes_keyword(sig, g, name));
                                }
                            }
                            assert(!unknown_keyword(sig, call, k));
                            assert(known_name(sig, name));
                        }
                    }
                },
                None => {
                    assert(!known_name(sig, name));
                    if sig.varkwargs_idx is Some {
                        if arg.interned {
                            let after = sig.keyword_step(st, k, arg)->Ok_0;
                            assert(after.varkwargs == st.varkwargs.push(k as usize));
                            assert(after.varkwargs[st.varkwargs.len() as int] == k as usize);
                            assert forall|j: int|
                                0 <= j < k + 1 && collects_keywords(sig) && (#[trigger] call.keywords@[j]).name is Some
                                    && !known_name(sig, call.keywords@[j].name->Some_0@) implies after.varkwargs.contains(
                                j as usize,
                            ) by {
                                if j < k {
                                    let at = choose|at: int| 0 <= at < st.varkwargs.len() && st.varkwargs[at] == j as usize;
                                    assert(after.varkwargs[at] == j as usize);
                                }
                            }
                            assert(!unknown_keyword(sig, call, k));
                            assert forall|g: int| 0 <= g < sig.fields@.len() implies !takes_keyword(sig, g, name) by {}
                            assert(after.slots == st.slots);
                        }
                    } else if sig.defers_unknown() {
                        let after = sig.keyword_step(st, k, arg)->Ok_0;
                        assert(unknown_keyword(sig, call, k));
                        assert forall|g: int| 0 <= g < sig.fields@.len() implies !takes_keyword(sig, g, name) by {}
                        assert(after.slots == st.slots);
                    }
                },
            }
        }
    }
}

/// The keyword arguments go where they belong exactly as far as they fit; the
/// first that does not is refused for its own reason.
proof fn lemma_keywords(sig: Signature, call: CallArgs, n: int)
    requires
        sig.wf(),
        0 <= n <= call.keywords@.len() <= usize::MAX,
        call.positional@.len() <= usize::MAX,
    ensures
        match sig.after_keywords(call, n) {
            Ok(st) => {
                &&& arguments_in_place(sig, call, st, n)
                &&& forall|k: int| 0 <= k < n ==> #[trigger] keyword_fits(sig, call, k)
            },
            Err(err) => exists|k: int|
                {
                    &&& 0 <= k < n
                    &&& #[trigger] keyword_refusal(sig, call, k, err)
                    &&& !keyword_fits(sig, call, k)
                    &&& forall|j: int| 0 <= j < k ==> #[trigger] keyword_fits(sig, call, j)
                },
        },
    decreases n,
{
    assert(sig.fields.len() <= usize::MAX);
    if n > 0 {
        lemma_keywords(sig, call, n - 1);
        if sig.after_keywords(call, n - 1) is Ok {
            let st = sig.after_keywords(call, n - 1)->Ok_0;
            lemma_keyword_step(sig, call, st, n - 1);
            if sig.after_keywords(call, n) is Err {
                assert(keyword_refusal(sig, call, n - 1, sig.after_keywords(call, n)->Err_0));
            }
        } else {
            let err = sig.after_keywords(call, n - 1)->Err_0;
            let k = choose|k: int|
                {
                    &&& 0 <= k < n - 1
                    &&& #[trigger] keyword_refusal(sig, call, k, err)
                    &&& !keyword_fits(sig, call, k)
                    &&& forall|j: int| 0 <= j < k ==> #[trigger] keyword_fits(sig, call, j)
                };
            assert(keyword_refusal(sig, call, k, err));
        }
    }
}

/// Why the positional arguments cannot go where they belong.
pub open spec fn positional_refusal(sig: Signature, call: CallArgs, err: BindError) -> bool {
    match err {
        BindError::BadValue { arg: ArgRef::Positional(i), field, style, pos } => {
            &&& i < call.positional@.len()
            &&& !call.positional@[i as int]
            &&& forall|j: int| 0 <= j < i ==> #[trigger] call.positional@[j]
            &&& if i < places(sig) {
                field == i && style == sig.attrs.bad_arg && pos == i + 1
            } else {
                field < sig.fields@.len() && sig.fields@[field as int].kind is Varargs && style is None && pos == 0
            }
        },
        BindError::TooMany { count, max, actual } => {
            &&& call.positional@.len() > places(sig)
            &&& !collects_positionals(sig)
            &&& forall|j: int| 0 <= j < places(sig) ==> #[trigger] call.positional@[j]
            &&& max == places(sig)
            &&& actual == call.positional@.len() + call.keywords@.len()
            &&& if sig.attrs.expected_exact {
                count is ExpectedExact
            } else if needed_pos_only(sig) > 0 {
                count is Method
            } else {
                match sig.attrs.error_style {
                    ErrorStyle::Python => count is Python,
                    ErrorStyle::NamedC => count is Method,
                    ErrorStyle::C(AtMostStyle::Standard) => count is C,
                    ErrorStyle::C(AtMostStyle::Positional) => count == TooManyWording::CPositionalOrTotal(
                        (places(sig) + sig.fields@.filter(|f: Field| f.kind is KwOnly).len()) as usize,
                    ),
                }
            }
        },
        _ => false,
    }
}

proof fn lemma_keyword_only(fields: Seq<Field>)
    ensures
        fields.filter(|f: Field| f.kind is KwOnly).len() == count_kind(fields, false, false),
    decreases fields.len(),
{
    reveal(Seq::filter);
    if fields.len() > 0 {
        lemma_keyword_only(fields.drop_last());
    }
}

proof fn lemma_positionals(sig: Signature, call: CallArgs, i: int)
    requires
        sig.wf(),
        0 <= i <= sig.placed(call),
        call.positional@.len() + call.keywords@.len() <= usize::MAX,
        forall|j: int| 0 <= j < i ==> #[trigger] call.positional@[j],
    ensures
        match sig.positional_error(call, i) {
            None => positionals_fit(sig, call),
            Some(err) => !positionals_fit(sig, call) && positional_refusal(sig, call, err),
        },
    decreases sig.placed(call) - i,
{
    assert(sig.fields.len() <= usize::MAX);
    lemma_places(sig, sig.fields@.len() as int);
    lemma_collectors(sig);
    lemma_keyword_only(sig.fields@);
    if i < sig.placed(call) {
        if call.positional@[i] {
            lemma_positionals(sig, call, i + 1);
        } else if i >= places(sig) {
            assert(sig.fields@[sig.varargs_idx->Some_0 as int].kind is Varargs);
        }
    }
}

/// Why the number of arguments is refused.
pub open spec fn count_refusal(sig: Signature, call: CallArgs, err: BindError) -> bool {
    let given = call.positional@.len();
    let all = given + call.keywords@.len();
    let unsupported = sig.attrs.kwargs_not_supported_yet && call.keywords@.len() > 0;
    let over = sig.attrs.at_most_total && all > places(sig);
    match err {
        BindError::KeywordsNotSupported => unsupported,
        BindError::TooMany { count, max, actual } => {
            &&& !unsupported
            &&& over
            &&& max == places(sig)
            &&& actual == all
            &&& match sig.attrs.error_style {
                ErrorStyle::C(AtMostStyle::Standard) => count is C,
                ErrorStyle::C(AtMostStyle::Positional) => count is CPositional,
                _ => count is Method,
            }
        },
        BindError::ExpectedExact { required, actual } => {
            &&& !unsupported
            &&& !over
            &&& sig.attrs.expected_exact
            &&& required == needed_places(sig)
            &&& actual == given
            &&& given != required
        },
        BindError::TooFew { required, actual } => {
            &&& !unsupported
            &&& !over
            &&& !sig.attrs.expected_exact
            &&& required == needed_pos_only(sig)
            &&& actual == given
            &&& given < required
        },
        _ => false,
    }
}

proof fn lemma_early(sig: Signature, call: CallArgs)
    requires
        sig.wf(),
        call.positional@.len() + call.keywords@.len() <= usize::MAX,
    ensures
        match sig.early_error(call) {
            None => counts_met(sig, call),
            Some(err) => !counts_met(sig, call) && count_refusal(sig, call, err),
        },
{
    assert(sig.fields.len() <= usize::MAX);
    lemma_places(sig, sig.fields@.len() as int);
    lemma_required_counts(sig.fields@);
}

proof fn lemma_required_counts(fields: Seq<Field>)
    ensures
        count_kind(fields, true, true) <= fields.len(),
        count_required_pos_only(fields) <= fields.len(),
    decreases fields.len(),
{
    if fields.len() > 0 {
        lemma_required_counts(fields.drop_last());
    }
}

/// Why a call is refused whose arguments all go where they belong: a field is
/// left out, or a keyword is for none.
pub open spec fn completeness_refusal(sig: Signature, call: CallArgs, err: BindError) -> bool {
    match err {
        BindError::Missing { wording, field, pos } => {
            &&& field < sig.fields@.len()
            &&& left_out(sig, call, field as int)
            &&& forall|e: int| 0 <= e < field ==> !#[trigger] left_out(sig, call, e)
            &&& sig.fields@[field as int].kind is PosOnly || sig.fields@[field as int].kind is PosOrKeyword
            &&& pos == field + 1
            &&& match sig.attrs.error_style {
                ErrorStyle::Python => wording is Python,
                ErrorStyle::C(_) => wording is C,
                ErrorStyle::NamedC => wording is NamedC,
            }
        },
        BindError::MissingKeywordOnly { field } => {
            &&& field < sig.fields@.len()
            &&& left_out(sig, call, field as int)
            &&& forall|e: int| 0 <= e < field ==> !#[trigger] left_out(sig, call, e)
            &&& sig.fields@[field as int].kind is KwOnly
            &&& forall|k: int| 0 <= k < call.keywords@.len() ==> !#[trigger] unknown_keyword(sig, call, k)
        },
        BindError::UnknownKeyword { unknown, keyword } => {
            &&& keyword < call.keywords@.len()
            &&& unknown_keyword(sig, call, keyword as int)
            &&& forall|k: int| 0 <= k < keyword ==> !#[trigger] unknown_keyword(sig, call, k)
            &&& forall|f: int|
                0 <= f < sig.fields@.len() && (sig.fields@[f].kind is PosOnly || sig.fields@[f].kind is PosOrKeyword)
                    ==> !#[trigger] left_out(sig, call, f)
            &&& match sig.attrs.error_style {
                ErrorStyle::Python => false,
                ErrorStyle::C(_) => unknown is Anonymous,
                ErrorStyle::NamedC => unknown is Function,
            }
        },
        _ => false,
    }
}

proof fn lemma_first_missing(sig: Signature, call: CallArgs, st: BindState, from: int)
    requires
        sig.wf(),
        arguments_in_place(sig, call, st, call.keywords@.len() as int),
        0 <= from <= sig.fields@.len(),
        forall|e: int| 0 <= e < from ==> !#[trigger] left_out(sig, call, e),
    ensures
        match sig.first_missing(st.slots, from) {
            Some(f) => {
                &&& 0 <= f < sig.fields@.len()
                &&& left_out(sig, call, f)
                &&& forall|e: int| 0 <= e < f ==> !#[trigger] left_out(sig, call, e)
            },
            None => forall|e: int| 0 <= e < sig.fields@.len() ==> !#[trigger] left_out(sig, call, e),
        },
    decreases sig.fields@.len() - from,
{
    if from < sig.fields@.len() {
        let slot = st.slots[from];
        if left_out(sig, call, from) {
            match slot {
                Some(ArgRef::Keyword(k)) => {
                    assert(call.keywords@[k as int].name is Some);
                },
                _ => {},
            }
            assert(slot is None);
        } else {
            if slot is None {
                assert(!given_by_position(sig, call, from));
            }
            lemma_first_missing(sig, call, st, from + 1);
        }
    }
}

proof fn lemma_late(sig: Signature, call: CallArgs, st: BindState)
    requires
        sig.wf(),
        call.keywords@.len() <= usize::MAX,
        sig.after_keywords(call, call.keywords@.len() as int) == Ok::<BindState, BindError>(st),
        arguments_in_place(sig, call, st, call.keywords@.len() as int),
        forall|k: int| 0 <= k < call.keywords@.len() ==> #[trigger] keyword_fits(sig, call, k),
    ensures
        match sig.late_error(st) {
            None => {
                &&& forall|f: int| 0 <= f < sig.fields@.len() ==> !#[trigger] left_out(sig, call, f)
                &&& forall|k: int| 0 <= k < call.keywords@.len() ==> !#[trigger] unknown_keyword(sig, call, k)
            },
            Some(err) => {
                &&& completeness_refusal(sig, call, err)
                &&& ({
                    ||| exists|f: int| 0 <= f < sig.fields@.len() && #[trigger] left_out(sig, call, f)
                    ||| exists|k: int| 0 <= k < call.keywords@.len() && #[trigger] unknown_keyword(sig, call, k)
                })
            },
        },
{
    assert(sig.fields.len() <= usize::MAX);
    lemma_first_missing(sig, call, st, 0);
    let missing = sig.first_missing(st.slots, 0);
    if st.unknown is Some {
        let u = st.unknown->Some_0 as int;
        assert(unknown_keyword(sig, call, u));
        assert(keyword_fits(sig, call, u));
        if missing is Some && !positional(sig.fields@[missing->Some_0].kind) {
            let m = missing->Some_0;
            assert forall|f: int|
                0 <= f < sig.fields@.len() && (sig.fields@[f].kind is PosOnly || sig.fields@[f].kind is PosOrKeyword) implies !#[trigger] left_out(
                sig,
                call,
                f,
            ) by {
                assert(f < sig.max_positional());
                assert(m >= sig.max_positional());
            }
        }
    }
}

/// A call binds exactly where it meets the options on counts, every positional
/// argument converts and has a place, every keyword argument is for a field
/// that no positional argument fills and no earlier keyword names, or is
/// collected, and no field without a default is left out.
pub proof fn law_calls_bind_exactly_where_they_fit(sig: Signature, call: CallArgs)
    requires
        sig.wf(),
        call.positional@.len() + call.keywords@.len() <= usize::MAX,
    ensures
        sig.binds(call) is Ok <==> {
            &&& counts_met(sig, call)
            &&& positionals_fit(sig, call)
            &&& forall|k: int| 0 <= k < call.keywords@.len() ==> #[trigger] keyword_fits(sig, call, k)
            &&& forall|k: int| 0 <= k < call.keywords@.len() ==> !#[trigger] unknown_keyword(sig, call, k)
            &&& forall|f: int| 0 <= f < sig.fields@.len() ==> !#[trigger] left_out(sig, call, f)
        },
{
    let all = call.keywords@.len() as int;
    lemma_early(sig, call);
    lemma_positionals(sig, call, 0);
    lemma_keywords(sig, call, all);
    if sig.after_keywords(call, all) is Ok {
        lemma_late(sig, call, sig.after_keywords(call, all)->Ok_0);
    }
}

/// In a call that binds, a field has the positional argument of its own place,
/// else the one keyword argument of its name, else none; the keyword arguments
/// for no field are collected, all of them and in their order.
pub proof fn law_arguments_go_where_they_belong(sig: Signature, call: CallArgs)
    requires
        sig.wf(),
        call.positional@.len() + call.keywords@.len() <= usize::MAX,
        sig.binds(call) is Ok,
    ensures
        ({
            let st = sig.binds(call)->Ok_0;
            &&& st.slots.len() == sig.fields@.len()
            &&& forall|f: int|
                0 <= f < sig.fields@.len() && given_by_position(sig, call, f) ==> #[trigger] st.slots[f] == Some(
                    ArgRef::Positional(f as usize),
                )
            &&& forall|f: int, k: int|
                0 <= k < call.keywords@.len() && call.keywords@[k].name is Some && #[trigger] takes_keyword(
                    sig,
                    f,
                    (#[trigger] call.keywords@[k]).name->Some_0@,
                ) ==> st.slots[f] == Some(ArgRef::Keyword(k as usize))
            &&& forall|f: int|
                0 <= f < sig.fields@.len() && (#[trigger] st.slots[f]) is Some ==> {
                    ||| given_by_position(sig, call, f)
                    ||| exists|k: int|
                        {
                            &&& 0 <= k < call.keywords@.len()
                            &&& (#[trigger] call.keywords@[k]).name is Some
                            &&& takes_keyword(sig, f, call.keywords@[k].name->Some_0@)
                        }
                }
            &&& forall|i: int, j: int|
                0 <= i < j < st.varkwargs.len() ==> #[trigger] st.varkwargs[i] < #[trigger] st.varkwargs[j]
            &&& forall|k: usize|
                #[trigger] st.varkwargs.contains(k) <==> {
                    &&& k < call.keywords@.len()
                    &&& call.keywords@[k as int].name is Some
                    &&& !known_name(sig, call.keywords@[k as int].name->Some_0@)
                }
        }),
{
    let st = sig.binds(call)->Ok_0;
    let all = call.keywords@.len() as int;
    assert(sig.fields.len() <= usize::MAX);
    law_calls_bind_exactly_where_they_fit(sig, call);
    lemma_keywords(sig, call, all);
    assert forall|f: int, k: int|
        0 <= k < call.keywords@.len() && call.keywords@[k].name is Some && #[trigger] takes_keyword(
            sig,
            f,
            (#[trigger] call.keywords@[k]).name->Some_0@,
        ) implies st.slots[f] == Some(ArgRef::Keyword(k as usize)) by {
        let name = call.keywords@[k].name->Some_0@;
        assert(keyword_fits(sig, call, k));
        assert(answers_to(sig.fields@[f], name));
        assert(known_name(sig, name));
        assert(!given_by_position(sig, call, f));
        match st.slots[f] {
            Some(ArgRef::Keyword(j)) => {
                let j = j as int;
                assert(takes_keyword(sig, f, call.keywords@[j].name->Some_0@));
                assert(has_name(call, j, name));
                if j < k {
                    assert(named_before(call, k, name));
                } else if k < j {
                    assert(keyword_fits(sig, call, j));
                    assert(has_name(call, k, name));
                    assert(named_before(call, j, name));
                }
            },
            _ => {},
        }
    }
    assert forall|k: usize| #[trigger] st.varkwargs.contains(k) implies {
        &&& k < call.keywords@.len()
        &&& call.keywords@[k as int].name is Some
        &&& !known_name(sig, call.keywords@[k as int].name->Some_0@)
    } by {
        let i = choose|i: int| 0 <= i < st.varkwargs.len() && st.varkwargs[i] == k;
        assert(st.varkwargs[i] == k);
    }
    assert forall|k: usize|
        k < call.keywords@.len() && call.keywords@[k as int].name is Some && !known_name(
            sig,
            call.keywords@[k as int].name->Some_0@,
        ) implies #[trigger] st.varkwargs.contains(k) by {
        assert(!unknown_keyword(sig, call, k as int));
    }
    assert forall|f: int| 0 <= f < sig.fields@.len() && (#[trigger] st.slots[f]) is Some implies {
        ||| given_by_position(sig, call, f)
        ||| exists|k: int|
            {
                &&& 0 <= k < call.keywords@.len()
                &&& (#[trigger] call.keywords@[k]).name is Some
                &&& takes_keyword(sig, f, call.keywords@[k].name->Some_0@)
            }
    } by {
        match st.slots[f] {
            Some(ArgRef::Keyword(k)) => {
                assert(call.keywords@[k as int].name is Some);
            },
            _ => {},
        }
    }
}

/// Every refusal has its reason in the call: the number of arguments, then the
/// first positional argument that is wrong, then the first keyword argument
/// that is, then what is missing or unknown. What comes before was in order.
pub proof fn law_refusals_have_their_reason(sig: Signature, call: CallArgs)
    requires
        sig.wf(),
        call.positional@.len() + call.keywords@.len() <= usize::MAX,
        sig.binds(call) is Err,
    ensures
        ({
            let err = sig.binds(call)->Err_0;
            let keywords = call.keywords@.len() as int;
            if !counts_met(sig, call) {
                count_refusal(sig, call, err)
            } else if !positionals_fit(sig, call) {
                positional_refusal(sig, call, err)
            } else if exists|k: int| 0 <= k < keywords && !#[trigger] keyword_fits(sig, call, k) {
                exists|k: int|
                    {
                        &&& 0 <= k < keywords
                        &&& #[trigger] keyword_refusal(sig, call, k, err)
                        &&& forall|j: int| 0 <= j < k ==> #[trigger] keyword_fits(sig, call, j)
                    }
            } else {
                completeness_refusal(sig, call, err)
            }
        }),
{
    let all = call.keywords@.len() as int;
    lemma_early(sig, call);
    lemma_positionals(sig, call, 0);
    lemma_keywords(sig, call, all);
    if sig.after_keywords(call, all) is Ok {
        lemma_late(sig, call, sig.after_keywords(call, all)->Ok_0);
    }
}

/// A conflict is reported only for a field that a positional argument of the
/// call fills, or that an earlier keyword names.
pub proof fn law_conflicts_are_real(sig: Signature, call: CallArgs)
    requires
        sig.wf(),
        call.positional@.len() + call.keywords@.len() <= usize::MAX,
        sig.binds(call) is Err,
        sig.binds(call)->Err_0 is Conflict,
    ensures
        ({
            let f = sig.binds(call)->Err_0->Conflict_field as int;
            &&& 0 <= f < sig.fields@.len()
            &&& sig.fields@[f].kind is PosOrKeyword
            &&& exists|k: int|
                {
                    &&& 0 <= k < call.keywords@.len()
                    &&& #[trigger] has_name(call, k, sig.fields@[f].decl.keyword@)
                    &&& f < call.positional@.len() || exists|j: int|
                        0 <= j < k && #[trigger] has_name(call, j, sig.fields@[f].decl.keyword@)
                }
        }),
{
    law_refusals_have_their_reason(sig, call);
    let err = sig.binds(call)->Err_0;
    let f = err->Conflict_field as int;
    let k = choose|k: int|
        {
            &&& 0 <= k < call.keywords@.len()
            &&& #[trigger] keyword_refusal(sig, call, k, err)
            &&& forall|j: int| 0 <= j < k ==> #[trigger] keyword_fits(sig, call, j)
        };
    assert(has_name(call, k, sig.fields@[f].decl.keyword@));
}

/// A call binds whose values all convert, that meets the options on counts, has
/// a place or a collector for every positional argument, and whose keywords are
/// each for a field of their own that no positional argument fills, or are
/// collected, so that no required field is left without a value. Every argument
/// is then where it belongs: `target` gives the field of each keyword, and none
/// for one that is collected.
pub proof fn law_sound_calls_bind(sig: Signature, call: CallArgs, target: Seq<Option<int>>)
    requires
        sig.wf(),
        call.positional@.len() + call.keywords@.len() <= usize::MAX,
        ({
            let given = call.positional@.len();
            let places = sig.fields@.filter(|f: Field| f.kind is PosOnly || f.kind is PosOrKeyword).len();
            let needed = sig.fields@.filter(
                |f: Field| (f.kind is PosOnly || f.kind is PosOrKeyword) && !f.decl.has_default,
            ).len();
            let needed_pos_only = sig.fields@.filter(|f: Field| f.kind is PosOnly && !f.decl.has_default).len();
            &&& sig.attrs.kwargs_not_supported_yet ==> call.keywords@.len() == 0
            &&& sig.attrs.at_most_total ==> given + call.keywords@.len() <= places
            &&& sig.attrs.expected_exact ==> given == needed
            &&& !sig.attrs.expected_exact ==> given >= needed_pos_only
            &&& given <= places || exists|f: int| 0 <= f < sig.fields@.len() && (#[trigger] sig.fields@[f]).kind is Varargs
        }),
        forall|i: int| 0 <= i < call.positional@.len() ==> #[trigger] call.positional@[i],
        target.len() == call.keywords@.len(),
        forall|k: int|
            0 <= k < target.len() ==> {
                let arg = call.keywords@[k];
                &&& arg.name is Some
                &&& match #[trigger] target[k] {
                    Some(f) => {
                        &&& 0 <= f < sig.fields@.len()
                        &&& sig.fields@[f].kind is PosOrKeyword || sig.fields@[f].kind is KwOnly
                        &&& arg.name->Some_0@ == sig.fields@[f].decl.keyword@
                        &&& arg.converts
                        &&& sig.fields@[f].kind is PosOrKeyword ==> f >= call.positional@.len()
                    },
                    None => {
                        &&& arg.interned
                        &&& sig.fields@.len() > 0
                        &&& sig.fields@.last().kind is Varkwargs
                    },
                }
            },
        forall|k: int, f: int|
            0 <= k < target.len() && (#[trigger] target[k]) is None && 0 <= f < sig.fields@.len() ==> (
            #[trigger] sig.fields@[f]).decl.keyword@ != call.keywords@[k].name->Some_0@,
        forall|j: int, k: int|
            0 <= j < k < target.len() && (#[trigger] target[j]) is Some ==> target[j] != #[trigger] target[k],
        forall|e: int, f: int|
            0 <= e < f < sig.fields@.len() ==> (#[trigger] sig.fields@[e]).decl.keyword@ != (
            #[trigger] sig.fields@[f]).decl.keyword@,
        forall|f: int|
            0 <= f < sig.fields@.len() && !(#[trigger] sig.fields@[f]).decl.has_default ==> {
                ||| sig.fields@[f].kind is Varargs
                ||| sig.fields@[f].kind is Varkwargs
                ||| (sig.fields@[f].kind is PosOnly || sig.fields@[f].kind is PosOrKeyword) && f < call.positional@.len()
                ||| target.contains(Some(f))
            },
    ensures
        sig.binds(call) is Ok,
        sig.binds(call)->Ok_0.slots.len() == sig.fields@.len(),
        forall|f: int|
            0 <= f < sig.fields@.len() && f < call.positional@.len() && (sig.fields@[f].kind is PosOnly
                || sig.fields@[f].kind is PosOrKeyword) ==> #[trigger] sig.binds(call)->Ok_0.slots[f] == Some(
                ArgRef::Positional(f as usize),
            ),
        forall|k: int|
            0 <= k < target.len() && (#[trigger] target[k]) is Some ==> sig.binds(call)->Ok_0.slots[target[k]->Some_0]
                == Some(ArgRef::Keyword(k as usize)),
        forall|k: int|
            0 <= k < target.len() ==> ((#[trigger] target[k]) is None <==> sig.binds(call)->Ok_0.varkwargs.contains(
                k as usize,
            )),
{
    assert forall|k: int| 0 <= k < target.len() && (#[trigger] target[k]) is Some implies takes_keyword(
        sig,
        target[k]->Some_0,
        call.keywords@[k].name->Some_0@,
    ) by {}
    assert forall|k: int| 0 <= k < target.len() && (#[trigger] target[k]) is None implies !known_name(
        sig,
        call.keywords@[k].name->Some_0@,
    ) && !barred_name(sig, call.keywords@[k].name->Some_0@) && collects_keywords(sig) by {
        let last = sig.fields@.len() - 1;
        assert(sig.fields@[last].kind is Varkwargs);
    }
    assert forall|k: int| 0 <= k < call.keywords@.len() implies #[trigger] keyword_fits(sig, call, k) by {
        let name = call.keywords@[k].name->Some_0@;
        match target[k] {
            Some(f) => {
                assert(takes_keyword(sig, f, name));
                assert(answers_to(sig.fields@[f], name));
                assert(!barred_name(sig, name));
                if named_before(call, k, name) {
                    let j = choose|j: int| 0 <= j < k && #[trigger] has_name(call, j, name);
                    match target[j] {
                        Some(g) => {
                            assert(takes_keyword(sig, g, call.keywords@[j].name->Some_0@));
                            assert(target[j] != target[k]);
                        },
                        None => {
                            assert(sig.fields@[f].decl.keyword@ != call.keywords@[j].name->Some_0@);
                        },
                    }
                }
                assert forall|g: int| #[trigger] takes_keyword(sig, g, name) implies !given_by_position(sig, call, g) by {
                    assert(g == f);
                }
            },
            None => {
                assert(!known_name(sig, name));
            },
        }
    }
    assert forall|k: int| 0 <= k < call.keywords@.len() implies !#[trigger] unknown_keyword(sig, call, k) by {
        let name = call.keywords@[k].name->Some_0@;
        match target[k] {
            Some(f) => {
                assert(answers_to(sig.fields@[f], name));
            },
            None => {
                assert(collects_keywords(sig));
            },
        }
    }
    assert forall|f: int| 0 <= f < sig.fields@.len() implies !#[trigger] left_out(sig, call, f) by {
        if target.contains(Some(f)) {
            let k = choose|k: int| 0 <= k < target.len() && target[k] == Some(f);
            assert(takes_keyword(sig, f, call.keywords@[k].name->Some_0@));
            assert(call.keywords@[k].name is Some);
        }
    }
    law_calls_bind_exactly_where_they_fit(sig, call);
    law_arguments_go_where_they_belong(sig, call);
    let st = sig.binds(call)->Ok_0;
    assert forall|k: int| 0 <= k < target.len() && (#[trigger] target[k]) is Some implies st.slots[target[k]->Some_0]
        == Some(ArgRef::Keyword(k as usize)) by {
        assert(takes_keyword(sig, target[k]->Some_0, call.keywords@[k].name->Some_0@));
    }
    assert forall|k: int| 0 <= k < target.len() implies ((#[trigger] target[k]) is None <==> st.varkwargs.contains(
        k as usize,
    )) by {
        if target[k] is Some {
            assert(answers_to(sig.fields@[target[k]->Some_0], call.keywords@[k].name->Some_0@));
        }
    }
    assert forall|f: int|
        0 <= f < sig.fields@.len() && f < call.positional@.len() && (sig.fields@[f].kind is PosOnly
            || sig.fields@[f].kind is PosOrKeyword) implies #[trigger] st.slots[f] == Some(ArgRef::Positional(f as usize)) by {
        assert(given_by_position(sig, call, f));
    }
}

/// What a refusal says of the call is true of it: arguments that are too many or
/// too few, a value that does not convert, a key that is no string, a name that
/// no field has, and a field without a value are what they are said to be.
pub proof fn law_refusals_are_true_of_the_call(sig: Signature, call: CallArgs)
    requires
        sig.wf(),
        call.positional@.len() + call.keywords@.len() <= usize::MAX,
        sig.binds(call) is Err,
    ensures
        ({
            let given = call.positional@.len();
            let all = given + call.keywords@.len();
            let places = sig.fields@.filter(|f: Field| f.kind is PosOnly || f.kind is PosOrKeyword).len();
            match sig.binds(call)->Err_0 {
                BindError::KeywordsNotSupported => sig.attrs.kwargs_not_supported_yet && call.keywords@.len() > 0,
                BindError::TooMany { max, actual, .. } => max == places && actual == all && actual > max,
                BindError::ExpectedExact { required, actual } => {
                    &&& sig.attrs.expected_exact
                    &&& actual == given
                    &&& required == sig.fields@.filter(
                        |f: Field| (f.kind is PosOnly || f.kind is PosOrKeyword) && !f.decl.has_default,
                    ).len()
                    &&& actual != required
                },
                BindError::TooFew { required, actual } => {
                    &&& actual == given
                    &&& required == sig.fields@.filter(|f: Field| f.kind is PosOnly && !f.decl.has_default).len()
                    &&& actual < required
                },
                BindError::BadValue { arg: ArgRef::Positional(i), field, .. } => {
                    &&& i < given
                    &&& !call.positional@[i as int]
                    &&& field < sig.fields@.len()
                    &&& field == i || sig.fields@[field as int].kind is Varargs
                },
                BindError::BadValue { arg: ArgRef::Keyword(k), field, .. } => {
                    &&& k < call.keywords@.len()
                    &&& !call.keywords@[k as int].converts
                    &&& field < sig.fields@.len()
                    &&& call.keywords@[k as int].name is Some
                    &&& call.keywords@[k as int].name->Some_0@ == sig.fields@[field as int].decl.keyword@
                },
                BindError::NonStringKey { keyword } => {
                    &&& keyword < call.keywords@.len()
                    &&& call.keywords@[keyword as int].name is None || !call.keywords@[keyword as int].interned
                },
                BindError::PositionalOnly { field } => {
                    &&& field < sig.fields@.len()
                    &&& sig.fields@[field as int].kind is PosOnly
                    &&& exists|k: int|
                        0 <= k < call.keywords@.len() && #[trigger] has_name(
                            call,
                            k,
                            sig.fields@[field as int].decl.keyword@,
                        )
                },
                BindError::Conflict { field, .. } => field < sig.fields@.len() && sig.fields@[field as int].kind is PosOrKeyword,
                BindError::MultipleValues { field } => {
                    &&& field < sig.fields@.len()
                    &&& sig.fields@[field as int].kind is KwOnly
                    &&& exists|j: int, k: int|
                        0 <= j < k < call.keywords@.len() && #[trigger] has_name(
                            call,
                            j,
                            sig.fields@[field as int].decl.keyword@,
                        ) && #[trigger] has_name(call, k, sig.fields@[field as int].decl.keyword@)
                },
                BindError::UnknownKeyword { keyword, .. } => {
                    &&& keyword < call.keywords@.len()
                    &&& call.keywords@[keyword as int].name is Some
                    &&& forall|f: int|
                        0 <= f < sig.fields@.len() && ((#[trigger] sig.fields@[f]).kind is PosOrKeyword
                            || sig.fields@[f].kind is KwOnly) ==> sig.fields@[f].decl.keyword@
                            != call.keywords@[keyword as int].name->Some_0@
                    &&& forall|f: int| 0 <= f < sig.fields@.len() ==> !((#[trigger] sig.fields@[f]).kind is Varkwargs)
                },
                BindError::Missing { field, pos, .. } => {
                    &&& field < sig.fields@.len()
                    &&& sig.fields@[field as int].kind is PosOnly || sig.fields@[field as int].kind is PosOrKeyword
                    &&& !sig.fields@[field as int].decl.has_default
                    &&& field >= given
                    &&& pos == field + 1
                },
                BindError::MissingKeywordOnly { field } => {
                    &&& field < sig.fields@.len()
                    &&& sig.fields@[field as int].kind is KwOnly
                    &&& !sig.fields@[field as int].decl.has_default
                },
            }
        }),
{
    assert(sig.fields.len() <= usize::MAX);
    law_refusals_have_their_reason(sig, call);
    lemma_places(sig, sig.fields@.len() as int);
    let err = sig.binds(call)->Err_0;
    if exists|k: int|
        {
            &&& 0 <= k < call.keywords@.len()
            &&& #[trigger] keyword_refusal(sig, call, k, err)
            &&& forall|j: int| 0 <= j < k ==> #[trigger] keyword_fits(sig, call, j)
        } {
        let k = choose|k: int|
            {
                &&& 0 <= k < call.keywords@.len()
                &&& #[trigger] keyword_refusal(sig, call, k, err)
                &&& forall|j: int| 0 <= j < k ==> #[trigger] keyword_fits(sig, call, j)
            };
        match err {
            BindError::PositionalOnly { field } => {
                assert(has_name(call, k, sig.fields@[field as int].decl.keyword@));
            },
            BindError::MultipleValues { field } => {
                let name = call.keywords@[k].name->Some_0@;
                let j = choose|j: int| 0 <= j < k && #[trigger] has_name(call, j, name);
                assert(has_name(call, j, sig.fields@[field as int].decl.keyword@));
                assert(has_name(call, k, sig.fields@[field as int].decl.keyword@));
            },
            _ => {},
        }
    }
}

/// The counts of a signature are those of its fields.
pub proof fn law_counts_are_those_of_the_fields(sig: Signature)
    ensures
        sig.max_positional() == sig.fields@.filter(|f: Field| f.kind is PosOnly || f.kind is PosOrKeyword).len(),
        count_kind(sig.fields@, true, true) == sig.fields@.filter(
            |f: Field| (f.kind is PosOnly || f.kind is PosOrKeyword) && !f.decl.has_default,
        ).len(),
        count_kind(sig.fields@, false, false) == sig.fields@.filter(|f: Field| f.kind is KwOnly).len(),
        count_required_pos_only(sig.fields@) == sig.fields@.filter(
            |f: Field| f.kind is PosOnly && !f.decl.has_default,
        ).len(),
{
    lemma_places(sig, sig.fields@.len() as int);
    lemma_keyword_only(sig.fields@);
}

/// The wording of errors follows the style that the signature asks for; a fixed
/// count and required positional-only fields have wordings of their own.
pub proof fn law_wordings_follow_the_style(sig: Signature, max: nat)
    ensures
        sig.defers_unknown() <==> sig.attrs.error_style is C || sig.attrs.error_style is NamedC,
        sig.field_wording() is Python <==> sig.attrs.error_style is Python,
        sig.field_wording() is C <==> sig.attrs.error_style is C,
        sig.field_wording() is NamedC <==> sig.attrs.error_style is NamedC,
        sig.total_wording() is C <==> sig.attrs.error_style == ErrorStyle::C(AtMostStyle::Standard),
        sig.total_wording() is CPositional <==> sig.attrs.error_style == ErrorStyle::C(AtMostStyle::Positional),
        sig.total_wording() is Method <==> !(sig.attrs.error_style is C),
        sig.attrs.expected_exact ==> !sig.c_method_arity() && sig.at_most_wording(max) is ExpectedExact,
        !sig.attrs.expected_exact && sig.c_method_arity() ==> sig.at_most_wording(max) is Method,
        !sig.attrs.expected_exact ==> (sig.c_method_arity() <==> sig.fields@.filter(
            |f: Field| f.kind is PosOnly && !f.decl.has_default,
        ).len() > 0),
        !sig.attrs.expected_exact && !sig.c_method_arity() && sig.attrs.error_style is Python ==> sig.at_most_wording(
            max,
        ) is Python,
        !sig.attrs.expected_exact && !sig.c_method_arity() && sig.attrs.error_style is NamedC ==> sig.at_most_wording(
            max,
        ) is Method,
{
    lemma_places(sig, sig.fields@.len() as int);
}

} // verus!
