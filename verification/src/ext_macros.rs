//! Planning of generated extension code: which items of an extension are
//! exported, under which names, and how a call's arguments reach them.
//!
//! Source items arrive as plain descriptions of what matters about them, and
//! plans refer back to them by index.

use crate::text::{cat2, cat3, chars_of, same, string_of};
use vstd::prelude::*;
use vstd::string::*;

verus! {

// ---------------------------------------------------------------------------
// Names
// ---------------------------------------------------------------------------

/// Whether Unicode counts a character as uppercase.
pub uninterp spec fn unicode_upper(c: char) -> bool;

/// The lowercase form of a character in Unicode.
pub uninterp spec fn unicode_lower(c: char) -> Seq<char>;

/// `char::is_uppercase`. For ASCII it holds of the letters `A` to `Z`.
#[verifier::external_body]
fn char_is_uppercase(c: char) -> (r: bool)
    ensures
        r == unicode_upper(c),
        (c as u32) < 128 ==> r == ascii_capital(c),
{
    c.is_uppercase()
}

/// `char::to_lowercase`. Of an ASCII capital it is the one small letter.
#[verifier::external_body]
fn char_to_lowercase(c: char) -> (r: Vec<char>)
    ensures
        r@ == unicode_lower(c),
        ascii_capital(c) ==> r@ == seq![ascii_small(c)],
{
    c.to_lowercase().collect()
}

/// A name in snake case: every uppercase letter is lowered, with an underscore
/// in front of all but a leading one.
pub open spec fn snake(name: Seq<char>) -> Seq<char>
    decreases name.len(),
{
    if name.len() == 0 {
        Seq::empty()
    } else {
        let front = snake(name.drop_last());
        let c = name.last();
        if unicode_upper(c) {
            if name.len() > 1 { front.push('_') + unicode_lower(c) } else { front + unicode_lower(c) }
        } else {
            front.push(c)
        }
    }
}

/// Whether every character is an ASCII one.
pub open spec fn is_ascii(name: Seq<char>) -> bool {
    forall|i: int| 0 <= i < name.len() ==> (#[trigger] name[i] as u32) < 128
}

/// Whether a character is an ASCII capital.
pub open spec fn ascii_capital(c: char) -> bool {
    'A' <= c && c <= 'Z'
}

/// The small letter of an ASCII capital.
pub open spec fn ascii_small(c: char) -> char {
    match c {
        'A' => 'a',
        'B' => 'b',
        'C' => 'c',
        'D' => 'd',
        'E' => 'e',
        'F' => 'f',
        'G' => 'g',
        'H' => 'h',
        'I' => 'i',
        'J' => 'j',
        'K' => 'k',
        'L' => 'l',
        'M' => 'm',
        'N' => 'n',
        'O' => 'o',
        'P' => 'p',
        'Q' => 'q',
        'R' => 'r',
        'S' => 's',
        'T' => 't',
        'U' => 'u',
        'V' => 'v',
        'W' => 'w',
        'X' => 'x',
        'Y' => 'y',
        'Z' => 'z',
        _ => c,
    }
}

/// An ASCII name in snake case.
pub open spec fn ascii_snake(name: Seq<char>) -> Seq<char>
    decreases name.len(),
{
    if name.len() == 0 {
        Seq::empty()
    } else {
        let front = ascii_snake(name.drop_last());
        let c = name.last();
        if ascii_capital(c) {
            if name.len() > 1 { front.push('_').push(ascii_small(c)) } else { front.push(ascii_small(c)) }
        } else {
            front.push(c)
        }
    }
}

/// Converts a type name to snake case.
pub fn snake_case(input: &str) -> (r: String)
    ensures
        r@ == snake(input@),
        is_ascii(input@) ==> r@ == ascii_snake(input@),
{
    let chars: Vec<char> = chars_of(input);
    let mut out: Vec<char> = Vec::new();
    let mut i: usize = 0;
    proof {
        assert(input@.take(0) =~= Seq::<char>::empty());
    }
    while i < chars.len()
        invariant
            i <= chars@.len(),
            chars@ == input@,
            out@ == snake(input@.take(i as int)),
            is_ascii(input@) ==> out@ == ascii_snake(input@.take(i as int)),
        decreases chars@.len() - i,
    {
        let c: char = chars[i];
        proof {
            assert(input@.take(i + 1).drop_last() =~= input@.take(i as int));
            assert(input@.take(i + 1).last() == c);
        }
        if char_is_uppercase(c) {
            if i != 0 {
                out.push('_');
            }
            let lower: Vec<char> = char_to_lowercase(c);
            let ghost front = out@;
            out.extend_from_slice(lower.as_slice());
            proof {
                assert(out@ =~= snake(input@.take(i + 1)));
                if is_ascii(input@) {
                    assert((input@[i as int] as u32) < 128);
                    assert(lower@ =~= seq![ascii_small(c)]);
                    assert(out@ =~= front.push(ascii_small(c)));
                    assert(out@ =~= ascii_snake(input@.take(i + 1)));
                }
            }
        } else {
            out.push(c);
            proof {
                if is_ascii(input@) {
                    assert((input@[i as int] as u32) < 128);
                }
            }
        }
        i = i + 1;
    }
    proof {
        assert(input@.take(input@.len() as int) =~= input@);
    }
    string_of(out.as_slice())
}

/// The names generated for a class of stored objects.
pub struct HandleNames {
    /// The typed handle.
    pub handle: String,
    /// The exported class.
    pub class: String,
    /// What an argument of the class has to be.
    pub expected: String,
    /// The function that stores an object.
    pub store: String,
    /// The function that lends an object.
    pub with: String,
    /// The function that lends an object for changes.
    pub with_mut: String,
}

/// Whether these are the names for the class `ident` of the module `module`.
pub open spec fn names_class(n: HandleNames, ident: Seq<char>, module: Seq<char>) -> bool {
    &&& n.handle@ == ident + "Handle"@
    &&& n.class@ == module + "."@ + ident
    &&& n.expected@ == "a "@ + (module + "."@ + ident) + " handle"@
    &&& n.store@ == "store_"@ + snake(ident)
    &&& n.with@ == "with_"@ + snake(ident)
    &&& n.with_mut@ == "with_"@ + snake(ident) + "_mut"@
    &&& is_ascii(ident) ==> snake(ident) == ascii_snake(ident)
}

/// The names generated for the class `ident` of the module `module_name`.
pub fn handle_names(ident: &str, module_name: &str) -> (r: HandleNames)
    ensures
        names_class(r, ident@, module_name@),
{
    let snake_name: String = snake_case(ident);
    let class: String = cat3(module_name, ".", ident);
    let expected: String = cat3("a ", class.as_str(), " handle");
    HandleNames {
        handle: cat2(ident, "Handle"),
        class,
        expected,
        store: cat2("store_", snake_name.as_str()),
        with: cat2("with_", snake_name.as_str()),
        with_mut: cat3("with_", snake_name.as_str(), "_mut"),
    }
}

// ---------------------------------------------------------------------------
// Types and parameters
// ---------------------------------------------------------------------------

/// What matters about the type of a parameter.
pub enum TypeShape {
    /// A path: its last segment, and whether that has a type as its first
    /// generic argument.
    Path { last: String, first_is_type: bool },
    /// A reference to a path with this last segment.
    RefPath { last: String },
    /// A reference to anything else.
    RefOther,
    Other,
}

impl TypeShape {
    /// A path that ends in `ident`.
    pub open spec fn names(self, ident: Seq<char>) -> bool {
        self is Path && self->Path_last@ == ident
    }

    /// A reference to a path that ends in `ident`.
    pub open spec fn refers_to(self, ident: Seq<char>) -> bool {
        self is RefPath && self->RefPath_last@ == ident
    }

    /// The call context, by value or by reference.
    pub open spec fn context(self) -> bool {
        self.names("ExtContext"@) || self.refers_to("ExtContext"@)
    }

    /// The raw arguments, by value or by reference.
    pub open spec fn raw_args(self) -> bool {
        self.names("ExtArgs"@) || self.refers_to("ExtArgs"@)
    }

    /// An option with a type inside.
    pub open spec fn optional(self) -> bool {
        self.names("Option"@) && self->first_is_type
    }

    /// Whether a typed handle tells which class it is of.
    pub open spec fn tells_class(self) -> bool {
        !(self is RefPath) && !(self is RefOther) && !self.names("ExtHandle"@)
    }

    fn path_ends_with(&self, ident: &str) -> (r: bool)
        ensures
            r == self.names(ident@),
    {
        match self {
            TypeShape::Path { last, .. } => same(last.as_str(), ident),
            _ => false,
        }
    }

    fn ref_ends_with(&self, ident: &str) -> (r: bool)
        ensures
            r == self.refers_to(ident@),
    {
        match self {
            TypeShape::RefPath { last } => same(last.as_str(), ident),
            _ => false,
        }
    }

    /// Whether this is the call context.
    pub fn is_ext_context(&self) -> (r: bool)
        ensures
            r == self.context(),
    {
        self.path_ends_with("ExtContext") || self.ref_ends_with("ExtContext")
    }

    /// Whether these are the raw arguments.
    pub fn is_ext_args(&self) -> (r: bool)
        ensures
            r == self.raw_args(),
    {
        self.path_ends_with("ExtArgs") || self.ref_ends_with("ExtArgs")
    }

    /// Whether this is an untyped handle by value.
    pub fn is_ext_handle(&self) -> (r: bool)
        ensures
            r == self.names("ExtHandle"@),
    {
        self.path_ends_with("ExtHandle")
    }

    /// Whether this is an untyped handle by reference.
    pub fn is_ref_ext_handle(&self) -> (r: bool)
        ensures
            r == self.refers_to("ExtHandle"@),
    {
        self.ref_ends_with("ExtHandle")
    }

    /// Whether this is an option with a type inside.
    pub fn is_option(&self) -> (r: bool)
        ensures
            r == self.optional(),
    {
        match self {
            TypeShape::Path { last, first_is_type } => same(last.as_str(), "Option") && *first_is_type,
            _ => false,
        }
    }

    /// Whether the class of a handle can be inferred from this type.
    pub fn can_infer_handle_type(&self) -> (r: bool)
        ensures
            r == self.tells_class(),
    {
        match self {
            TypeShape::RefPath { .. } => false,
            TypeShape::RefOther => false,
            _ => !self.is_ext_handle(),
        }
    }
}

/// A parameter behind the first.
pub struct Param {
    /// Whether it is an ordinary parameter with a type.
    pub typed: bool,
    /// Its name, where it is a simple one.
    pub name: Option<String>,
    pub ty: TypeShape,
    /// The source text of its type.
    pub ty_text: String,
}

/// Whether a function or a method is exported.
#[derive(Clone, Copy, Debug, PartialEq, Eq, Structural)]
pub enum CallMode {
    Function,
    Method,
}

/// Whether the exporting code is an impl block or a module.
#[derive(Clone, Copy, Debug, PartialEq, Eq, Structural)]
pub enum ExportStyle {
    Impl,
    Module,
}

/// Where the value of a parameter comes from.
#[derive(Clone, Copy, Debug, PartialEq, Eq, Structural)]
pub enum ArgPlan {
    /// The call context.
    Context,
    /// All arguments as they are.
    RawArgs,
    /// The handle, by reference.
    HandleRef,
    /// A copy of the handle.
    HandleCopy,
    /// The handle, converted to the type of the parameter.
    HandleTyped,
    /// The optional argument at this position.
    Optional(usize),
    /// The required argument at this position.
    Required(usize),
}

impl ArgPlan {
    /// The parameter gets the handle.
    pub open spec fn takes_handle(self) -> bool {
        self is HandleRef || self is HandleCopy || self is HandleTyped
    }

    /// The parameter gets an argument of the call.
    pub open spec fn takes_argument(self) -> bool {
        self is Optional || self is Required
    }

    /// The position of the argument that the parameter gets.
    pub open spec fn position(self) -> usize {
        match self {
            ArgPlan::Optional(i) => i,
            ArgPlan::Required(i) => i,
            _ => 0,
        }
    }
}

/// Where the value of one parameter comes from, given whether an earlier one
/// has the handle and how many arguments earlier ones have.
pub open spec fn plan_one(p: Param, mode: CallMode, handle_taken: bool, index: int) -> ArgPlan {
    if p.ty.context() {
        ArgPlan::Context
    } else if p.ty.raw_args() {
        ArgPlan::RawArgs
    } else if mode is Method && !handle_taken {
        if p.ty.refers_to("ExtHandle"@) {
            ArgPlan::HandleRef
        } else if p.ty.names("ExtHandle"@) {
            ArgPlan::HandleCopy
        } else {
            ArgPlan::HandleTyped
        }
    } else if p.ty.optional() {
        ArgPlan::Optional(index as usize)
    } else {
        ArgPlan::Required(index as usize)
    }
}

/// What is said of a parameter that is no ordinary one.
pub open spec fn receiver_message(style: ExportStyle) -> Seq<char> {
    match style {
        ExportStyle::Impl => "unexpected receiver form"@,
        ExportStyle::Module => "unexpected receiver in module-level function"@,
    }
}

/// What is said of a method without a handle.
pub open spec fn no_handle_message(style: ExportStyle) -> Seq<char> {
    match style {
        ExportStyle::Impl => "#[method] exports must take a handle parameter after &self"@,
        ExportStyle::Module => "method must take a handle parameter after the `ext` parameter"@,
    }
}

/// Where the value of each parameter comes from, or why it cannot be told.
pub open spec fn plan_args(
    params: Seq<Param>,
    mode: CallMode,
    style: ExportStyle,
    handle_taken: bool,
    index: int,
) -> Result<Seq<ArgPlan>, Seq<char>>
    decreases params.len(),
{
    if params.len() == 0 {
        if mode is Method && !handle_taken {
            Err(no_handle_message(style))
        } else {
            Ok(Seq::empty())
        }
    } else if !params[0].typed {
        Err(receiver_message(style))
    } else if params[0].name is None {
        Err("exported arguments must use simple identifiers"@)
    } else {
        let plan = plan_one(params[0], mode, handle_taken, index);
        match plan_args(
            params.skip(1),
            mode,
            style,
            handle_taken || plan.takes_handle(),
            if plan.takes_argument() { index + 1 } else { index },
        ) {
            Err(message) => Err(message),
            Ok(rest) => Ok(seq![plan] + rest),
        }
    }
}

/// A result with some plans in front.
pub open spec fn behind(plans: Seq<ArgPlan>, rest: Result<Seq<ArgPlan>, Seq<char>>) -> Result<
    Seq<ArgPlan>,
    Seq<char>,
> {
    match rest {
        Err(message) => Err(message),
        Ok(rest) => Ok(plans + rest),
    }
}

fn plan_arguments(params: &Vec<Param>, mode: CallMode, style: ExportStyle) -> (r: Result<Vec<ArgPlan>, String>)
    ensures
        match plan_args(params@, mode, style, false, 0) {
            Ok(plans) => r is Ok && r->Ok_0@ == plans,
            Err(message) => r is Err && r->Err_0@ == message,
        },
{
    let ghost all = params@;
    let mut plans: Vec<ArgPlan> = Vec::new();
    let mut handle_taken: bool = false;
    let mut index: usize = 0;
    let mut i: usize = 0;
    proof {
        assert(all.skip(0) =~= all);
        match plan_args(all, mode, style, false, 0) {
            Ok(rest) => assert(plans@ + rest =~= rest),
            Err(_) => {},
        }
    }
    while i < params.len()
        invariant
            i <= params@.len(),
            index <= i,
            all == params@,
            plan_args(all, mode, style, false, 0) == behind(
                plans@,
                plan_args(all.skip(i as int), mode, style, handle_taken, index as int),
            ),
        decreases params@.len() - i,
    {
        let param: &Param = &params[i];
        proof {
            assert(all.skip(i as int)[0] == *param);
            assert(all.skip(i as int).skip(1) =~= all.skip(i + 1));
        }
        if !param.typed {
            return Err(
                match style {
                    ExportStyle::Impl => "unexpected receiver form".to_owned(),
                    ExportStyle::Module => "unexpected receiver in module-level function".to_owned(),
                },
            );
        }
        if param.name.is_none() {
            return Err("exported arguments must use simple identifiers".to_owned());
        }
        let ghost plan0 = plan_one(*param, mode, handle_taken, index as int);
        let ghost before = plans@;
        let ghost rest = plan_args(
            all.skip(i + 1),
            mode,
            style,
            handle_taken || plan0.takes_handle(),
            if plan0.takes_argument() { index + 1 } else { index as int },
        );
        let is_method: bool = match mode {
            CallMode::Method => true,
            CallMode::Function => false,
        };
        if param.ty.is_ext_context() {
            plans.push(ArgPlan::Context);
        } else if param.ty.is_ext_args() {
            plans.push(ArgPlan::RawArgs);
        } else if is_method && !handle_taken {
            handle_taken = true;
            if param.ty.is_ref_ext_handle() {
                plans.push(ArgPlan::HandleRef);
            } else if param.ty.is_ext_handle() {
                plans.push(ArgPlan::HandleCopy);
            } else {
                plans.push(ArgPlan::HandleTyped);
            }
        } else {
            if param.ty.is_option() {
                plans.push(ArgPlan::Optional(index));
            } else {
                plans.push(ArgPlan::Required(index));
            }
            index = index + 1;
        }
        proof {
            assert(plans@ =~= before.push(plan0));
            match rest {
                Ok(tail) => {
                    assert(before + (seq![plan0] + tail) =~= plans@ + tail);
                },
                Err(_) => {},
            }
        }
        i = i + 1;
    }
    proof {
        assert(all.skip(all.len() as int).len() == 0);
        assert(plans@ + Seq::<ArgPlan>::empty() =~= plans@);
    }
    let is_method: bool = match mode {
        CallMode::Method => true,
        CallMode::Function => false,
    };
    if is_method && !handle_taken {
        return Err(
            match style {
                ExportStyle::Impl => "#[method] exports must take a handle parameter after &self".to_owned(),
                ExportStyle::Module => "method must take a handle parameter after the `ext` parameter".to_owned(),
            },
        );
    }
    Ok(plans)
}

/// Plans the arguments of an export of an impl block; `params` are the
/// parameters behind `&self`.
pub fn build_dispatch_body(params: &Vec<Param>, mode: CallMode) -> (r: Result<Vec<ArgPlan>, String>)
    ensures
        match plan_args(params@, mode, ExportStyle::Impl, false, 0) {
            Ok(plans) => r is Ok && r->Ok_0@ == plans,
            Err(message) => r is Err && r->Err_0@ == message,
        },
{
    plan_arguments(params, mode, ExportStyle::Impl)
}

/// Plans the arguments of an export of a module; `params` are the parameters
/// behind the extension itself.
pub fn build_mod_dispatch_body(params: &Vec<Param>, mode: CallMode) -> (r: Result<Vec<ArgPlan>, String>)
    ensures
        match plan_args(params@, mode, ExportStyle::Module, false, 0) {
            Ok(plans) => r is Ok && r->Ok_0@ == plans,
            Err(message) => r is Err && r->Err_0@ == message,
        },
{
    plan_arguments(params, mode, ExportStyle::Module)
}

/// How many of the plans satisfy what is counted.
pub open spec fn count_handles(plans: Seq<ArgPlan>) -> nat
    decreases plans.len(),
{
    if plans.len() == 0 {
        0
    } else {
        count_handles(plans.skip(1)) + if plans[0].takes_handle() { 1nat } else { 0nat }
    }
}

/// The argument positions that plans use, in order.
pub open spec fn positions(plans: Seq<ArgPlan>) -> Seq<usize>
    decreases plans.len(),
{
    if plans.len() == 0 {
        Seq::empty()
    } else if plans[0].takes_argument() {
        seq![plans[0].position()] + positions(plans.skip(1))
    } else {
        positions(plans.skip(1))
    }
}

proof fn lemma_plan(params: Seq<Param>, mode: CallMode, style: ExportStyle, handle_taken: bool, index: int)
    requires
        plan_args(params, mode, style, handle_taken, index) is Ok,
        0 <= index,
        index + params.len() <= usize::MAX,
    ensures
        ({
            let plans = plan_args(params, mode, style, handle_taken, index)->Ok_0;
            &&& plans.len() == params.len()
            &&& count_handles(plans) == if mode is Method && !handle_taken { 1nat } else { 0nat }
            &&& forall|k: int| 0 <= k < positions(plans).len() ==> #[trigger] positions(plans)[k] == index + k
        }),
    decreases params.len(),
{
    if params.len() > 0 {
        let plan = plan_one(params[0], mode, handle_taken, index);
        let taken = handle_taken || plan.takes_handle();
        let next = if plan.takes_argument() { index + 1 } else { index };
        lemma_plan(params.skip(1), mode, style, taken, next);
        let rest = plan_args(params.skip(1), mode, style, taken, next)->Ok_0;
        let plans = seq![plan] + rest;
        assert(plans.skip(1) =~= rest);
        assert(plans[0] == plan);
        assert forall|k: int| 0 <= k < positions(plans).len() implies #[trigger] positions(plans)[k] == index + k by {
            if plan.takes_argument() {
                assert(plan.position() == index);
                assert(positions(plans) == seq![plan.position()] + positions(rest));
                if k > 0 {
                    assert(positions(plans)[k] == positions(rest)[k - 1]);
                }
            } else {
                assert(positions(plans) == positions(rest));
                assert(positions(rest)[k] == next + k);
            }
        }
    }
}

/// Every parameter has a plan; a method has the handle in exactly one place
/// and a function nowhere; and arguments are taken by position, one after the
/// other from the first.
pub proof fn law_plans_cover_parameters(params: Seq<Param>, mode: CallMode, style: ExportStyle)
    requires
        plan_args(params, mode, style, false, 0) is Ok,
        params.len() <= usize::MAX,
    ensures
        ({
            let plans = plan_args(params, mode, style, false, 0)->Ok_0;
            &&& plans.len() == params.len()
            &&& count_handles(plans) == if mode is Method { 1nat } else { 0nat }
            &&& forall|k: int| 0 <= k < positions(plans).len() ==> #[trigger] positions(plans)[k] == k
        }),
{
    lemma_plan(params, mode, style, false, 0);
}

// ---------------------------------------------------------------------------
// Grouping
// ---------------------------------------------------------------------------

/// Whether an index occurs in one of the groups.
pub open spec fn grouped(groups: Seq<Vec<usize>>, i: int) -> bool {
    exists|g: int, a: int| 0 <= g < groups.len() && 0 <= a < groups[g]@.len() && #[trigger] groups[g]@[a] == i
}

/// The groups are a division of the first `n` keys by equality: each group
/// holds increasing indices of one key, and groups come in the order of their
/// first members.
pub open spec fn groups_by_key(keys: Seq<String>, groups: Seq<Vec<usize>>, n: int) -> bool {
    &&& forall|g: int| 0 <= g < groups.len() ==> (#[trigger] groups[g])@.len() > 0
    &&& forall|g: int, a: int|
        0 <= g < groups.len() && 0 <= a < groups[g]@.len() ==> (#[trigger] groups[g]@[a]) < n
            && keys[groups[g]@[a] as int]@ == keys[groups[g]@[0] as int]@
    &&& forall|g: int, a: int, b: int|
        0 <= g < groups.len() && 0 <= a < b < groups[g]@.len() ==> (#[trigger] groups[g]@[a]) < (
        #[trigger] groups[g]@[b])
    &&& forall|g: int, h: int|
        0 <= g < h < groups.len() ==> (#[trigger] groups[g])@[0] < (#[trigger] groups[h])@[0]
            && keys[groups[g]@[0] as int]@ != keys[groups[h]@[0] as int]@
    &&& forall|i: int| 0 <= i < n ==> #[trigger] grouped(groups, i)
}

/// Groups indices by their keys.
pub fn group_by_key(keys: &Vec<String>) -> (r: Vec<Vec<usize>>)
    ensures
        groups_by_key(keys@, r@, keys@.len() as int),
{
    let mut groups: Vec<Vec<usize>> = Vec::new();
    let mut i: usize = 0;
    while i < keys.len()
        invariant
            i <= keys@.len(),
            groups_by_key(keys@, groups@, i as int),
        decreases keys@.len() - i,
    {
        let mut g: usize = 0;
        while g < groups.len() && !same(keys[groups[g][0]].as_str(), keys[i].as_str())
            invariant
                i < keys@.len(),
                g <= groups@.len(),
                groups_by_key(keys@, groups@, i as int),
                forall|h: int| 0 <= h < g ==> keys@[(#[trigger] groups@[h])@[0] as int]@ != keys@[i as int]@,
            decreases groups@.len() - g,
        {
            g = g + 1;
        }
        let ghost before = groups@;
        if g < groups.len() {
            let ghost group0 = groups@[g as int]@;
            groups[g].push(i);
            proof {
                assert(groups@[g as int]@ =~= group0.push(i));
                assert forall|h: int| 0 <= h < groups@.len() && h != g implies groups@[h] == before[h] by {}
                lemma_extend_group(keys@, before, groups@, i as int, g as int);
            }
        } else {
            let mut fresh: Vec<usize> = Vec::new();
            fresh.push(i);
            groups.push(fresh);
            proof {
                assert(groups@ =~= before.push(fresh));
                lemma_new_group(keys@, before, groups@, i as int);
            }
        }
        i = i + 1;
    }
    groups
}

proof fn lemma_extend_group(keys: Seq<String>, before: Seq<Vec<usize>>, after: Seq<Vec<usize>>, i: int, g: int)
    requires
        groups_by_key(keys, before, i),
        0 <= i < keys.len(),
        i <= usize::MAX,
        0 <= g < before.len(),
        after.len() == before.len(),
        forall|h: int| 0 <= h < after.len() && h != g ==> after[h] == before[h],
        after[g]@ == before[g]@.push(i as usize),
        keys[before[g]@[0] as int]@ == keys[i]@,
    ensures
        groups_by_key(keys, after, i + 1),
{
    assert(before[g]@.len() > 0);
    assert forall|h: int| 0 <= h < after.len() implies (#[trigger] after[h])@.len() > 0 && after[h]@[0] == before[h]@[0] by {
        assert(before[h]@.len() > 0);
    }
    assert forall|h: int, a: int| 0 <= h < after.len() && 0 <= a < after[h]@.len() implies (#[trigger] after[h]@[a]) < i
        + 1 && keys[after[h]@[a] as int]@ == keys[after[h]@[0] as int]@ by {
        if h == g && a == before[g]@.len() {
        } else {
            assert(after[h]@[a] == before[h]@[a]);
        }
    }
    assert forall|h: int, a: int, b: int| 0 <= h < after.len() && 0 <= a < b < after[h]@.len() implies (
    #[trigger] after[h]@[a]) < (#[trigger] after[h]@[b]) by {
        assert(after[h]@[a] == before[h]@[a]);
        if h == g && b == before[g]@.len() {
            assert(before[h]@[a] < i);
        } else {
            assert(after[h]@[b] == before[h]@[b]);
        }
    }
    assert forall|h: int, k: int| 0 <= h < k < after.len() implies (#[trigger] after[h])@[0] < (#[trigger] after[k])@[0]
        && keys[after[h]@[0] as int]@ != keys[after[k]@[0] as int]@ by {
        assert(before[h]@[0] < before[k]@[0]);
    }
    assert forall|j: int| 0 <= j < i + 1 implies #[trigger] grouped(after, j) by {
        if j == i {
            assert(after[g]@[before[g]@.len() as int] == i);
        } else {
            assert(grouped(before, j));
            let (h, a) = choose|h: int, a: int|
                0 <= h < before.len() && 0 <= a < before[h]@.len() && #[trigger] before[h]@[a] == j;
            assert(after[h]@[a] == j);
        }
    }
}

proof fn lemma_new_group(keys: Seq<String>, before: Seq<Vec<usize>>, after: Seq<Vec<usize>>, i: int)
    requires
        groups_by_key(keys, before, i),
        0 <= i < keys.len(),
        i <= usize::MAX,
        after.len() == before.len() + 1,
        forall|h: int| 0 <= h < before.len() ==> after[h] == before[h],
        after[before.len() as int]@ == seq![i as usize],
        forall|h: int| 0 <= h < before.len() ==> keys[(#[trigger] before[h])@[0] as int]@ != keys[i]@,
    ensures
        groups_by_key(keys, after, i + 1),
{
    let last = before.len() as int;
    assert(after[last]@[0] == i);
    assert forall|h: int| 0 <= h < after.len() implies (#[trigger] after[h])@.len() > 0 by {
        if h < last {
            assert(before[h]@.len() > 0);
        }
    }
    assert forall|h: int, a: int| 0 <= h < after.len() && 0 <= a < after[h]@.len() implies (#[trigger] after[h]@[a]) < i
        + 1 && keys[after[h]@[a] as int]@ == keys[after[h]@[0] as int]@ by {
        if h < last {
            assert(before[h]@[a] < i);
        }
    }
    assert forall|h: int, a: int, b: int| 0 <= h < after.len() && 0 <= a < b < after[h]@.len() implies (
    #[trigger] after[h]@[a]) < (#[trigger] after[h]@[b]) by {
        if h < last {
            assert(before[h]@[a] < before[h]@[b]);
        }
    }
    assert forall|h: int, k: int| 0 <= h < k < after.len() implies (#[trigger] after[h])@[0] < (#[trigger] after[k])@[0]
        && keys[after[h]@[0] as int]@ != keys[after[k]@[0] as int]@ by {
        assert(before[h]@.len() > 0);
        assert(before[h]@[0] < i);
        if k < last {
            assert(before[h]@[0] < before[k]@[0]);
        }
    }
    assert forall|j: int| 0 <= j < i + 1 implies #[trigger] grouped(after, j) by {
        if j == i {
            assert(after[last]@[0] == i);
        } else {
            assert(grouped(before, j));
            let (h, a) = choose|h: int, a: int|
                0 <= h < before.len() && 0 <= a < before[h]@.len() && #[trigger] before[h]@[a] == j;
            assert(after[h]@[a] == j);
        }
    }
}

// ---------------------------------------------------------------------------
// What each parameter gets
// ---------------------------------------------------------------------------

/// Whether a type is a path, or a reference to one, that ends in this name.
pub open spec fn ends_in(ty: TypeShape, name: Seq<char>) -> bool {
    match ty {
        TypeShape::Path { last, .. } => last@ == name,
        TypeShape::RefPath { last } => last@ == name,
        _ => false,
    }
}

/// Whether a parameter is neither the context nor the raw arguments.
pub open spec fn from_the_call(p: Param) -> bool {
    !ends_in(p.ty, "ExtContext"@) && !ends_in(p.ty, "ExtArgs"@)
}

/// How many of the first `k` parameters are neither the context nor the raw
/// arguments.
pub open spec fn from_the_call_before(params: Seq<Param>, k: int) -> nat
    decreases k,
{
    if k <= 0 {
        0
    } else {
        from_the_call_before(params, k - 1) + if from_the_call(params[k - 1]) { 1nat } else { 0nat }
    }
}

proof fn lemma_before_skip(params: Seq<Param>, k: int)
    requires
        0 < k <= params.len(),
    ensures
        from_the_call_before(params, k) == from_the_call_before(params.skip(1), k - 1) + if from_the_call(params[0]) {
            1nat
        } else {
            0nat
        },
    decreases k,
{
    if k > 1 {
        lemma_before_skip(params, k - 1);
        assert(params.skip(1)[k - 2] == params[k - 1]);
    } else {
        assert(from_the_call_before(params, 0) == 0);
        assert(from_the_call_before(params.skip(1), 0) == 0);
    }
}

proof fn lemma_plan_at(params: Seq<Param>, mode: CallMode, style: ExportStyle, handle_taken: bool, index: int, k: int)
    requires
        plan_args(params, mode, style, handle_taken, index) is Ok,
        0 <= k < params.len(),
    ensures
        ({
            let plans = plan_args(params, mode, style, handle_taken, index)->Ok_0;
            let n = from_the_call_before(params, k) as int;
            let wants = mode is Method && !handle_taken;
            let at = if wants { index + n - 1 } else { index + n };
            &&& plans.len() == params.len()
            &&& plans[k] == plan_one(params[k], mode, handle_taken || (wants && n > 0), at)
        }),
    decreases params.len(),
{
    let plan = plan_one(params[0], mode, handle_taken, index);
    let taken = handle_taken || plan.takes_handle();
    let next = if plan.takes_argument() { index + 1 } else { index };
    let rest = plan_args(params.skip(1), mode, style, taken, next)->Ok_0;
    let plans = plan_args(params, mode, style, handle_taken, index)->Ok_0;
    assert(plans == seq![plan] + rest);
    if k == 0 {
        if params.len() > 1 {
            lemma_plan_at(params.skip(1), mode, style, taken, next, 0);
        } else {
            assert(params.skip(1).len() == 0);
        }
    } else {
        lemma_plan_at(params.skip(1), mode, style, taken, next, k - 1);
        lemma_before_skip(params, k);
        assert(params.skip(1)[k - 1] == params[k]);
        assert(plans[k] == rest[k - 1]);
    }
}

/// A parameter gets the context or the raw arguments where its type is one of
/// these. Of the others, the first of a method gets the handle, as its type
/// asks for it; the rest get the arguments of the call, by position from the
/// first on, and only options may go without.
pub proof fn law_parameters_get_what_they_ask_for(params: Seq<Param>, mode: CallMode, style: ExportStyle, k: int)
    requires
        plan_args(params, mode, style, false, 0) is Ok,
        0 <= k < params.len(),
    ensures
        ({
            let plan = plan_args(params, mode, style, false, 0)->Ok_0[k];
            let ty = params[k].ty;
            let n = from_the_call_before(params, k) as int;
            let at = if mode is Method { n - 1 } else { n };
            if ends_in(ty, "ExtContext"@) {
                plan is Context
            } else if ends_in(ty, "ExtArgs"@) {
                plan is RawArgs
            } else if mode is Method && n == 0 {
                match ty {
                    TypeShape::RefPath { last } => if last@ == "ExtHandle"@ {
                        plan is HandleRef
                    } else {
                        plan is HandleTyped
                    },
                    TypeShape::Path { last, .. } => if last@ == "ExtHandle"@ {
                        plan is HandleCopy
                    } else {
                        plan is HandleTyped
                    },
                    _ => plan is HandleTyped,
                }
            } else if ty is Path && ty->Path_last@ == "Option"@ && ty->first_is_type {
                plan == ArgPlan::Optional(at as usize)
            } else {
                plan == ArgPlan::Required(at as usize)
            }
        }),
{
    lemma_plan_at(params, mode, style, false, 0, k);
}

/// Arguments can be planned exactly where every parameter is an ordinary one
/// with a simple name and a method has one left for its handle.
pub proof fn law_plans_need_named_parameters_and_a_handle(params: Seq<Param>, mode: CallMode, style: ExportStyle)
    ensures
        plan_args(params, mode, style, false, 0) is Ok <==> {
            &&& forall|k: int| 0 <= k < params.len() ==> (#[trigger] params[k]).typed && params[k].name is Some
            &&& mode is Method ==> exists|k: int| 0 <= k < params.len() && from_the_call(#[trigger] params[k])
        },
{
    lemma_plannable(params, mode, style, false, 0);
}

proof fn lemma_plannable(params: Seq<Param>, mode: CallMode, style: ExportStyle, handle_taken: bool, index: int)
    ensures
        plan_args(params, mode, style, handle_taken, index) is Ok <==> {
            &&& forall|k: int| 0 <= k < params.len() ==> (#[trigger] params[k]).typed && params[k].name is Some
            &&& mode is Method && !handle_taken ==> exists|k: int|
                0 <= k < params.len() && from_the_call(#[trigger] params[k])
        },
    decreases params.len(),
{
    if params.len() > 0 && params[0].typed && params[0].name is Some {
        let plan = plan_one(params[0], mode, handle_taken, index);
        let taken = handle_taken || plan.takes_handle();
        let next = if plan.takes_argument() { index + 1 } else { index };
        let rest = params.skip(1);
        lemma_plannable(rest, mode, style, taken, next);
        assert forall|k: int| 0 < k < params.len() implies #[trigger] params[k] == rest[k - 1] by {}
        assert forall|k: int| 0 <= k < rest.len() implies #[trigger] rest[k] == params[k + 1] by {}
        if plan_args(params, mode, style, handle_taken, index) is Ok {
            assert forall|k: int| 0 <= k < params.len() implies (#[trigger] params[k]).typed && params[k].name is Some by {
                if k > 0 {
                    assert(rest[k - 1].typed && rest[k - 1].name is Some);
                }
            }
            if mode is Method && !handle_taken {
                if from_the_call(params[0]) {
                    assert(from_the_call(params[0]));
                } else {
                    let k = choose|k: int| 0 <= k < rest.len() && from_the_call(#[trigger] rest[k]);
                    assert(from_the_call(params[k + 1]));
                }
            }
        } else {
            if forall|k: int| 0 <= k < params.len() ==> (#[trigger] params[k]).typed && params[k].name is Some {
                assert forall|k: int| 0 <= k < rest.len() implies (#[trigger] rest[k]).typed && rest[k].name is Some by {
                    assert(params[k + 1].typed);
                }
                assert(mode is Method && !taken);
                assert(!from_the_call(params[0]));
                assert forall|k: int| 0 <= k < params.len() implies !from_the_call(#[trigger] params[k]) by {
                    if k > 0 {
                        assert(!from_the_call(rest[k - 1]));
                    }
                }
            }
        }
    } else if params.len() > 0 {
        assert(!(params[0].typed && params[0].name is Some));
    }
}

proof fn lemma_snake_tail(front: Seq<char>, tail: Seq<char>)
    requires
        forall|i: int| 0 <= i < tail.len() ==> !ascii_capital(#[trigger] tail[i]),
    ensures
        ascii_snake(front + tail) == ascii_snake(front) + tail,
    decreases tail.len(),
{
    if tail.len() == 0 {
        assert(front + tail =~= front);
        assert(ascii_snake(front) + tail =~= ascii_snake(front));
    } else {
        let shorter = tail.drop_last();
        assert forall|i: int| 0 <= i < shorter.len() implies !ascii_capital(#[trigger] shorter[i]) by {
            assert(shorter[i] == tail[i]);
        }
        lemma_snake_tail(front, shorter);
        assert((front + tail).drop_last() =~= front + shorter);
        assert(!ascii_capital(tail[tail.len() - 1]));
        assert((ascii_snake(front) + shorter).push(tail.last()) =~= ascii_snake(front) + tail);
    }
}

/// An ASCII name without capitals stays as it is; a capital within a name
/// becomes an underscore and the small letter, a leading one the small letter
/// alone, and the rest of the name goes on behind it.
pub proof fn law_snake_case_splits_at_capitals(front: Seq<char>, capital: char, tail: Seq<char>)
    requires
        ascii_capital(capital),
        forall|i: int| 0 <= i < tail.len() ==> !ascii_capital(#[trigger] tail[i]),
    ensures
        ascii_snake(tail) == tail,
        ascii_snake(seq![capital] + tail) == seq![ascii_small(capital)] + tail,
        front.len() > 0 ==> ascii_snake(front.push(capital) + tail) == ascii_snake(front) + seq![
            '_',
            ascii_small(capital),
        ] + tail,
{
    lemma_snake_tail(Seq::empty(), tail);
    assert(Seq::<char>::empty() + tail =~= tail);
    assert(ascii_snake(Seq::<char>::empty()) + tail =~= tail);
    lemma_snake_tail(seq![capital], tail);
    assert(seq![capital].drop_last() =~= Seq::<char>::empty());
    assert(ascii_snake(seq![capital].drop_last()) =~= Seq::<char>::empty());
    assert(ascii_snake(seq![capital]) =~= seq![ascii_small(capital)]);
    if front.len() > 0 {
        lemma_snake_tail(front.push(capital), tail);
        assert(front.push(capital).drop_last() =~= front);
        assert(ascii_snake(front.push(capital)) =~= ascii_snake(front) + seq!['_', ascii_small(capital)]);
    }
}

/// The names of a class are made from the class and its module alone.
pub proof fn law_class_names_are_made_from_the_class(n: HandleNames, ident: Seq<char>, module: Seq<char>)
    requires
        names_class(n, ident, module),
        is_ascii(ident),
    ensures
        n.handle@ == ident + "Handle"@,
        n.class@ == module + "."@ + ident,
        n.expected@ == "a "@ + n.class@ + " handle"@,
        n.store@ == "store_"@ + ascii_snake(ident),
        n.with@ == "with_"@ + ascii_snake(ident),
        n.with_mut@ == n.with@ + "_mut"@,
{
}

/// Parameters that cannot be planned are refused in the words of their place.
pub proof fn law_refusals_fit_their_place(style: ExportStyle)
    ensures
        style is Impl ==> receiver_message(style) == "unexpected receiver form"@ && no_handle_message(style)
            == "#[method] exports must take a handle parameter after &self"@,
        style is Module ==> receiver_message(style) == "unexpected receiver in module-level function"@
            && no_handle_message(style) == "method must take a handle parameter after the `ext` parameter"@,
{
}

/// The first parameter that is no ordinary one, or has no simple name, decides
/// why arguments cannot be planned; where there is none, a method lacks its
/// handle.
pub proof fn law_first_bad_parameter_is_reported(params: Seq<Param>, mode: CallMode, style: ExportStyle)
    requires
        plan_args(params, mode, style, false, 0) is Err,
    ensures
        ({
            let message = plan_args(params, mode, style, false, 0)->Err_0;
            ||| exists|k: int|
                {
                    &&& 0 <= k < params.len()
                    &&& !(#[trigger] params[k]).typed || params[k].name is None
                    &&& forall|j: int| 0 <= j < k ==> (#[trigger] params[j]).typed && params[j].name is Some
                    &&& !params[k].typed ==> message == receiver_message(style)
                    &&& params[k].typed ==> message == "exported arguments must use simple identifiers"@
                }
            ||| {
                &&& mode is Method
                &&& message == no_handle_message(style)
                &&& forall|j: int| 0 <= j < params.len() ==> (#[trigger] params[j]).typed && params[j].name is Some
            }
        }),
{
    lemma_plan_refusal(params, mode, style, false, 0);
}

proof fn lemma_plan_refusal(params: Seq<Param>, mode: CallMode, style: ExportStyle, handle_taken: bool, index: int)
    requires
        plan_args(params, mode, style, handle_taken, index) is Err,
    ensures
        ({
            let message = plan_args(params, mode, style, handle_taken, index)->Err_0;
            ||| exists|k: int|
                {
                    &&& 0 <= k < params.len()
                    &&& !(#[trigger] params[k]).typed || params[k].name is None
                    &&& forall|j: int| 0 <= j < k ==> (#[trigger] params[j]).typed && params[j].name is Some
                    &&& !params[k].typed ==> message == receiver_message(style)
                    &&& params[k].typed ==> message == "exported arguments must use simple identifiers"@
                }
            ||| {
                &&& mode is Method
                &&& message == no_handle_message(style)
                &&& forall|j: int| 0 <= j < params.len() ==> (#[trigger] params[j]).typed && params[j].name is Some
            }
        }),
    decreases params.len(),
{
    if params.len() > 0 {
        if !params[0].typed || params[0].name is None {
            assert(!params[0].typed || params[0].name is None);
        } else {
            let plan = plan_one(params[0], mode, handle_taken, index);
            let taken = handle_taken || plan.takes_handle();
            let next = if plan.takes_argument() { index + 1 } else { index };
            let rest = params.skip(1);
            lemma_plan_refusal(rest, mode, style, taken, next);
            let message = plan_args(rest, mode, style, taken, next)->Err_0;
            assert forall|j: int| 0 < j < params.len() implies #[trigger] params[j] == rest[j - 1] by {}
            if exists|k: int|
                {
                    &&& 0 <= k < rest.len()
                    &&& !(#[trigger] rest[k]).typed || rest[k].name is None
                    &&& forall|j: int| 0 <= j < k ==> (#[trigger] rest[j]).typed && rest[j].name is Some
                    &&& !rest[k].typed ==> message == receiver_message(style)
                    &&& rest[k].typed ==> message == "exported arguments must use simple identifiers"@
                } {
                let k = choose|k: int|
                    {
                        &&& 0 <= k < rest.len()
                        &&& !(#[trigger] rest[k]).typed || rest[k].name is None
                        &&& forall|j: int| 0 <= j < k ==> (#[trigger] rest[j]).typed && rest[j].name is Some
                        &&& !rest[k].typed ==> message == receiver_message(style)
                        &&& rest[k].typed ==> message == "exported arguments must use simple identifiers"@
                    };
                assert(params[k + 1] == rest[k]);
                assert forall|j: int| 0 <= j < k + 1 implies (#[trigger] params[j]).typed && params[j].name is Some by {
                    if j > 0 {
                        assert(rest[j - 1].typed);
                    }
                }
            } else {
                assert forall|j: int| 0 <= j < params.len() implies (#[trigger] params[j]).typed && params[j].name is Some by {
                    if j > 0 {
                        assert(rest[j - 1].typed);
                    }
                }
            }
        }
    }
}

/// Groups divide the keys: every index is in the one group of its key, and each
/// group holds all indices of its key.
pub proof fn law_groups_hold_equal_keys(keys: Seq<String>, groups: Seq<Vec<usize>>, g: int, i: int)
    requires
        groups_by_key(keys, groups, keys.len() as int),
        keys.len() <= usize::MAX,
        0 <= g < groups.len(),
        0 <= i < keys.len(),
    ensures
        groups[g]@.len() > 0,
        groups[g]@.contains(i as usize) <==> keys[i]@ == keys[groups[g]@[0] as int]@,
{
    assert(groups[g]@.len() > 0);
    if groups[g]@.contains(i as usize) {
        let a = choose|a: int| 0 <= a < groups[g]@.len() && groups[g]@[a] == i as usize;
        assert(groups[g]@[a] == i);
    }
    if keys[i]@ == keys[groups[g]@[0] as int]@ {
        assert(grouped(groups, i));
        let (h, a) = choose|h: int, a: int|
            0 <= h < groups.len() && 0 <= a < groups[h]@.len() && #[trigger] groups[h]@[a] == i;
        assert(keys[groups[h]@[a] as int]@ == keys[groups[h]@[0] as int]@);
        if h < g {
            assert(keys[groups[h]@[0] as int]@ != keys[groups[g]@[0] as int]@);
        } else if g < h {
            assert(keys[groups[g]@[0] as int]@ != keys[groups[h]@[0] as int]@);
        }
        assert(groups[g]@[a] == i as usize);
    }
}

proof fn lemma_unicode_snake_tail(front: Seq<char>, tail: Seq<char>)
    requires
        forall|i: int| 0 <= i < tail.len() ==> !unicode_upper(#[trigger] tail[i]),
    ensures
        snake(front + tail) == snake(front) + tail,
    decreases tail.len(),
{
    if tail.len() == 0 {
        assert(front + tail =~= front);
        assert(snake(front) + tail =~= snake(front));
    } else {
        let shorter = tail.drop_last();
        assert forall|i: int| 0 <= i < shorter.len() implies !unicode_upper(#[trigger] shorter[i]) by {
            assert(shorter[i] == tail[i]);
        }
        lemma_unicode_snake_tail(front, shorter);
        assert((front + tail).drop_last() =~= front + shorter);
        assert(!unicode_upper(tail[tail.len() - 1]));
        assert((snake(front) + shorter).push(tail.last()) =~= snake(front) + tail);
    }
}

/// What holds of ASCII names holds of all: an uppercase letter within a name
/// becomes an underscore and its lowercase form, a leading one that form alone,
/// and what is not uppercase stays.
pub proof fn law_snake_case_splits_at_uppercase(front: Seq<char>, upper: char, tail: Seq<char>)
    requires
        unicode_upper(upper),
        forall|i: int| 0 <= i < tail.len() ==> !unicode_upper(#[trigger] tail[i]),
    ensures
        snake(tail) == tail,
        snake(seq![upper] + tail) == unicode_lower(upper) + tail,
        front.len() > 0 ==> snake(front.push(upper) + tail) == snake(front) + seq!['_'] + unicode_lower(upper) + tail,
{
    lemma_unicode_snake_tail(Seq::empty(), tail);
    assert(Seq::<char>::empty() + tail =~= tail);
    assert(snake(Seq::<char>::empty()) + tail =~= tail);
    lemma_unicode_snake_tail(seq![upper], tail);
    assert(seq![upper].drop_last() =~= Seq::<char>::empty());
    assert(snake(seq![upper].drop_last()) =~= Seq::<char>::empty());
    assert(snake(seq![upper]) =~= unicode_lower(upper));
    if front.len() > 0 {
        lemma_unicode_snake_tail(front.push(upper), tail);
        assert(front.push(upper).drop_last() =~= front);
        assert(snake(front.push(upper)) =~= snake(front) + seq!['_'] + unicode_lower(upper));
    }
}

} // verus!
