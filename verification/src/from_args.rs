//! Call signatures of built-in functions: how they are declared, and how the
//! arguments of a call are bound to their fields.

use crate::ext_macros::is_ascii;
use crate::text::{chars_of, same, string_of};
use vstd::prelude::*;
use vstd::string::*;

verus! {

// ---------------------------------------------------------------------------
// Names
// ---------------------------------------------------------------------------

/// The uppercase form of a character in Unicode.
pub uninterp spec fn unicode_upper_form(c: char) -> Seq<char>;

/// `char::to_uppercase`. Of an ASCII small letter it is the one capital, and
/// other ASCII characters it leaves as they are.
#[verifier::external_body]
fn char_to_uppercase(c: char) -> (r: Vec<char>)
    ensures
        r@ == unicode_upper_form(c),
        (c as u32) < 128 ==> r@ == seq![ascii_upper(c)],
{
    c.to_uppercase().collect()
}

/// A snake-case name in Pascal case: underscores go, and what stands first or
/// behind one is capitalized.
pub open spec fn pascal(s: Seq<char>) -> Seq<char>
    decreases s.len(),
{
    if s.len() == 0 {
        Seq::empty()
    } else {
        let front = pascal(s.drop_last());
        if s.last() == '_' {
            front
        } else if s.len() == 1 || s[s.len() - 2] == '_' {
            front + unicode_upper_form(s.last())
        } else {
            front.push(s.last())
        }
    }
}

/// The capital of an ASCII small letter; any other character is its own.
pub open spec fn ascii_upper(c: char) -> char {
    match c {
        'a' => 'A',
        'b' => 'B',
        'c' => 'C',
        'd' => 'D',
        'e' => 'E',
        'f' => 'F',
        'g' => 'G',
        'h' => 'H',
        'i' => 'I',
        'j' => 'J',
        'k' => 'K',
        'l' => 'L',
        'm' => 'M',
        'n' => 'N',
        'o' => 'O',
        'p' => 'P',
        'q' => 'Q',
        'r' => 'R',
        's' => 'S',
        't' => 'T',
        'u' => 'U',
        'v' => 'V',
        'w' => 'W',
        'x' => 'X',
        'y' => 'Y',
        'z' => 'Z',
        _ => c,
    }
}

/// An ASCII snake-case name in Pascal case.
pub open spec fn ascii_pascal(s: Seq<char>) -> Seq<char>
    decreases s.len(),
{
    if s.len() == 0 {
        Seq::empty()
    } else {
        let front = ascii_pascal(s.drop_last());
        if s.last() == '_' {
            front
        } else if s.len() == 1 || s[s.len() - 2] == '_' {
            front.push(ascii_upper(s.last()))
        } else {
            front.push(s.last())
        }
    }
}

/// Converts a snake-case name to Pascal case.
pub fn snake_to_pascal(s: &str) -> (r: String)
    ensures
        r@ == pascal(s@),
        is_ascii(s@) ==> r@ == ascii_pascal(s@),
{
    let chars: Vec<char> = chars_of(s);
    let mut out: Vec<char> = Vec::new();
    let mut upper: bool = true;
    let mut i: usize = 0;
    proof {
        assert(s@.take(0) =~= Seq::<char>::empty());
    }
    while i < chars.len()
        invariant
            i <= chars@.len(),
            chars@ == s@,
            upper == (i == 0 || s@[i - 1] == '_'),
            out@ == pascal(s@.take(i as int)),
            is_ascii(s@) ==> out@ == ascii_pascal(s@.take(i as int)),
        decreases chars@.len() - i,
    {
        let c: char = chars[i];
        proof {
            assert(s@.take(i + 1).drop_last() =~= s@.take(i as int));
            assert(s@.take(i + 1).last() == c);
        }
        if c == '_' {
            upper = true;
        } else if upper {
            let big: Vec<char> = char_to_uppercase(c);
            let ghost front = out@;
            out.extend_from_slice(big.as_slice());
            upper = false;
            proof {
                assert(out@ =~= pascal(s@.take(i + 1)));
                if is_ascii(s@) {
                    assert((s@[i as int] as u32) < 128);
                    assert(big@ =~= seq![ascii_upper(c)]);
                    assert(out@ =~= front.push(ascii_upper(c)));
                    assert(out@ =~= ascii_pascal(s@.take(i + 1)));
                }
            }
        } else {
            out.push(c);
        }
        i = i + 1;
    }
    proof {
        assert(s@.take(s@.len() as int) =~= s@);
    }
    string_of(out.as_slice())
}

// ---------------------------------------------------------------------------
// Declarations
// ---------------------------------------------------------------------------

/// Role of a field in the signature.
#[derive(Clone, Copy, Debug, PartialEq, Eq, Structural)]
pub enum FieldKind {
    PosOrKeyword,
    PosOnly,
    KwOnly,
    /// Collects remaining positionals.
    Varargs,
    /// Collects unmatched keywords.
    Varkwargs,
}

/// Wording of errors about argument counts and keywords.
#[derive(Clone, Copy, Debug, PartialEq, Eq, Structural)]
pub enum ErrorStyle {
    /// That of functions written in Python.
    Python,
    /// That of functions written in C, without their name.
    C(AtMostStyle),
    /// That of functions written in C, with their name.
    NamedC,
}

/// Wording of "too many arguments" for functions written in C.
#[derive(Clone, Copy, Debug, PartialEq, Eq, Structural)]
pub enum AtMostStyle {
    Standard,
    Positional,
}

/// Wording of errors about the type of an argument.
#[derive(Clone, Copy, Debug, PartialEq, Eq, Structural)]
pub enum BadArgStyle {
    /// The argument is named by its position.
    Positional,
    /// The argument is named.
    Named,
}

/// A field as it is declared.
#[derive(Debug)]
pub struct FieldDecl {
    pub name: String,
    pub kind: FieldKind,
    /// Whether the field has a default.
    pub has_default: bool,
    /// The interned string given for its keyword, if any.
    pub static_string: Option<String>,
    /// The text of its keyword.
    pub keyword: String,
}

/// A field of a signature.
#[derive(Debug)]
pub struct Field {
    pub decl: FieldDecl,
    /// Its role, after fields behind `*args` have become keyword-only.
    pub kind: FieldKind,
    /// Its place among the positional fields, counted from one.
    pub pos_index: Option<usize>,
}

/// The options of a signature.
#[derive(Debug)]
pub struct StructAttrs {
    /// Function name in error messages.
    pub name: String,
    pub error_style: ErrorStyle,
    /// Count all arguments against the maximum before anything else.
    pub at_most_total: bool,
    /// The number of positionals is fixed.
    pub expected_exact: bool,
    /// Function name in errors about unknown keywords.
    pub kwarg_error_name: Option<String>,
    pub bad_arg: Option<BadArgStyle>,
    /// Refuse all keywords.
    pub kwargs_not_supported_yet: bool,
}

/// A validated signature.
#[derive(Debug)]
pub struct Signature {
    pub attrs: StructAttrs,
    pub fields: Vec<Field>,
    pub varargs_idx: Option<usize>,
    pub varkwargs_idx: Option<usize>,
}

/// Whether a role takes a positional argument of its own.
pub open spec fn positional(kind: FieldKind) -> bool {
    kind is PosOnly || kind is PosOrKeyword
}

/// Whether a field before `i` is declared as `kind`.
pub open spec fn declared_before(fields: Seq<FieldDecl>, i: int, kind: FieldKind) -> bool {
    exists|j: int| 0 <= j < i && (#[trigger] fields[j]).kind == kind
}

/// The role of a field: behind `*args` an ordinary one is keyword-only.
pub open spec fn role(fields: Seq<FieldDecl>, i: int) -> FieldKind {
    if fields[i].kind is PosOrKeyword && declared_before(fields, i, FieldKind::Varargs) {
        FieldKind::KwOnly
    } else {
        fields[i].kind
    }
}

/// Whether a field before `i` has the role `kind`.
pub open spec fn role_before(fields: Seq<FieldDecl>, i: int, kind: FieldKind) -> bool {
    exists|j: int| 0 <= j < i && #[trigger] role(fields, j) == kind
}

/// What is wrong with the place of the field at `i`.
pub open spec fn field_error(fields: Seq<FieldDecl>, i: int) -> Option<Seq<char>> {
    if declared_before(fields, i, FieldKind::Varkwargs) {
        Some("no fields may appear after a `#[from_args(varkwargs)]` field"@)
    } else if fields[i].kind is PosOnly && (role_before(fields, i, FieldKind::PosOrKeyword) || role_before(
        fields,
        i,
        FieldKind::KwOnly,
    ) || declared_before(fields, i, FieldKind::Varargs)) {
        Some(
            "positional-only fields must come before positional-or-keyword, varargs, and keyword-only fields"@,
        )
    } else if role(fields, i) is PosOrKeyword && role_before(fields, i, FieldKind::KwOnly) {
        Some("positional-or-keyword fields cannot appear after keyword-only fields"@)
    } else if fields[i].kind is Varargs && declared_before(fields, i, FieldKind::Varargs) {
        Some("only one `#[from_args(varargs)]` field is allowed"@)
    } else {
        None
    }
}

/// What is wrong with the first misplaced field, from `i` on.
pub open spec fn fields_error(fields: Seq<FieldDecl>, i: int) -> Option<Seq<char>>
    decreases fields.len() - i,
{
    if i < 0 || i >= fields.len() {
        None
    } else if field_error(fields, i) is Some {
        field_error(fields, i)
    } else {
        fields_error(fields, i + 1)
    }
}

/// What is wrong with the options, given the fields.
pub open spec fn options_error(attrs: StructAttrs, fields: Seq<FieldDecl>) -> Option<Seq<char>> {
    let n = fields.len() as int;
    let varargs = declared_before(fields, n, FieldKind::Varargs);
    let varkwargs = declared_before(fields, n, FieldKind::Varkwargs);
    if attrs.at_most_total && (varargs || varkwargs) {
        Some(
            "`at_most_total` cannot be combined with `varargs` or `varkwargs` — the up-front total-count check is only meaningful for signatures with a fixed maximum"@,
        )
    } else if attrs.expected_exact && (varargs || attrs.at_most_total) {
        Some(
            "`expected_exact` cannot be combined with `varargs` or `at_most_total` — the exact-arity wording assumes a single fixed required positional count"@,
        )
    } else if attrs.kwargs_not_supported_yet && varkwargs {
        Some(
            "`kwargs_not_supported_yet` cannot be combined with `varkwargs` — the flag rejects every kwarg up front, so there's nothing to collect"@,
        )
    } else if attrs.kwargs_not_supported_yet && role_before(fields, n, FieldKind::KwOnly) {
        Some(
            "`kwargs_not_supported_yet` cannot be combined with `kw_only` fields — the flag rejects every kwarg up front, so kw_only slots are unreachable"@,
        )
    } else if attrs.kwargs_not_supported_yet && attrs.kwarg_error_name is Some {
        Some(
            "`kwargs_not_supported_yet` cannot be combined with `kwarg_error_name` — the override only applies to the unknown-kwarg dispatch path, which is skipped"@,
        )
    } else {
        None
    }
}

/// What is wrong with a declaration.
pub open spec fn declaration_error(attrs: StructAttrs, fields: Seq<FieldDecl>) -> Option<Seq<char>> {
    match fields_error(fields, 0) {
        Some(message) => Some(message),
        None => options_error(attrs, fields),
    }
}

impl Signature {
    /// How many fields take a positional argument of their own.
    pub open spec fn max_positional(self) -> nat {
        count_kind(self.fields@, true, false)
    }

    /// Positional fields come first, numbered from one, and the two collecting
    /// fields are where the indices say.
    pub open spec fn wf(self) -> bool {
        &&& self.max_positional() <= self.fields@.len()
        &&& forall|i: int|
            0 <= i < self.fields@.len() ==> {
                &&& positional((#[trigger] self.fields@[i]).kind) <==> i < self.max_positional()
                &&& self.fields@[i].pos_index == if i < self.max_positional() { Some((i + 1) as usize) } else { None }
                &&& self.fields@[i].kind is Varargs <==> self.varargs_idx == Some(i as usize)
                &&& self.fields@[i].kind is Varkwargs <==> self.varkwargs_idx == Some(i as usize)
            }
        &&& self.varargs_idx is Some ==> self.varargs_idx->Some_0 < self.fields@.len()
        &&& self.varkwargs_idx is Some ==> self.varkwargs_idx->Some_0 == self.fields@.len() - 1
    }
}

/// How many fields are positional (or keyword-only), and required where asked.
pub open spec fn count_kind(fields: Seq<Field>, positionals: bool, required: bool) -> nat
    decreases fields.len(),
{
    if fields.len() == 0 {
        0
    } else {
        let f = fields.last();
        let hit = (if positionals { positional(f.kind) } else { f.kind is KwOnly }) && (!required
            || !f.decl.has_default);
        count_kind(fields.drop_last(), positionals, required) + if hit { 1nat } else { 0nat }
    }
}

proof fn lemma_positional_prefix(fields: Seq<FieldDecl>, i: int)
    requires
        0 <= i < fields.len(),
        fields_error(fields, 0) is None,
    ensures
        field_error(fields, i) is None,
        positional(role(fields, i)) ==> forall|j: int| 0 <= j < i ==> positional(#[trigger] role(fields, j)),
{
    lemma_no_field_error(fields, 0, i);
    if positional(role(fields, i)) {
        assert forall|j: int| 0 <= j < i implies positional(#[trigger] role(fields, j)) by {
            if role(fields, j) is KwOnly {
                assert(role_before(fields, i, FieldKind::KwOnly));
            }
            if role(fields, j) is Varargs {
                assert(fields[j].kind is Varargs);
                assert(declared_before(fields, i, FieldKind::Varargs));
            }
            if role(fields, j) is Varkwargs {
                assert(fields[j].kind is Varkwargs);
                assert(declared_before(fields, i, FieldKind::Varkwargs));
            }
        }
    }
}

proof fn lemma_no_field_error(fields: Seq<FieldDecl>, from: int, i: int)
    requires
        0 <= from <= i < fields.len(),
        fields_error(fields, from) is None,
    ensures
        field_error(fields, i) is None,
    decreases i - from,
{
    if from < i {
        lemma_no_field_error(fields, from + 1, i);
    }
}

/// The positional fields of a sound declaration come before all others.
pub proof fn law_positional_fields_come_first(attrs: StructAttrs, fields: Seq<FieldDecl>, i: int, j: int)
    requires
        declaration_error(attrs, fields) is None,
        0 <= i < j < fields.len(),
        positional(role(fields, j)),
    ensures
        positional(role(fields, i)),
{
    lemma_positional_prefix(fields, j);
}

impl Signature {
    /// Validates a declaration; `fields` is absent where it is no struct with
    /// named fields.
    pub fn parse(attrs: StructAttrs, fields: Option<Vec<FieldDecl>>) -> (r: Result<Signature, String>)
        ensures
            fields is None ==> r is Err && r->Err_0@ == "FromArgs can only be derived for structs with named fields"@,
            fields is Some ==> match declaration_error(attrs, fields->Some_0@) {
                Some(message) => r is Err && r->Err_0@ == message,
                None => {
                    &&& r is Ok
                    &&& r->Ok_0.attrs == attrs
                    &&& r->Ok_0.fields@.len() == fields->Some_0@.len()
                    &&& forall|i: int|
                        0 <= i < r->Ok_0.fields@.len() ==> (#[trigger] r->Ok_0.fields@[i]).decl == fields->Some_0@[i]
                            && r->Ok_0.fields@[i].kind == role(fields->Some_0@, i)
                    &&& r->Ok_0.wf()
                },
            },
    {
        let list: Vec<FieldDecl> = match fields {
            None => return Err("FromArgs can only be derived for structs with named fields".to_owned()),
            Some(list) => list,
        };
        let ghost all = list@;
        let mut out: Vec<Field> = Vec::new();
        let mut varargs_idx: Option<usize> = None;
        let mut varkwargs_idx: Option<usize> = None;
        let mut seen_pos_or_kw: bool = false;
        let mut seen_kw_only: bool = false;
        let mut pos_counter: usize = 0;
        let mut idx: usize = 0;
        let ghost total = list.len();
        for decl in it: list
            invariant
                fields is Some,
                all == fields->Some_0@,
                it.seq() == all,
                total == all.len(),
                idx == it.index(),
                out@.len() == idx,
                fields_error(all, 0) == fields_error(all, idx as int),
                forall|j: int| 0 <= j < idx ==> #[trigger] field_error(all, j) is None,
                forall|j: int|
                    0 <= j < idx ==> (#[trigger] out@[j]).decl == all[j] && out@[j].kind == role(all, j),
                varargs_idx is Some <==> declared_before(all, idx as int, FieldKind::Varargs),
                varkwargs_idx is Some <==> declared_before(all, idx as int, FieldKind::Varkwargs),
                varargs_idx is Some ==> varargs_idx->Some_0 < idx && all[varargs_idx->Some_0 as int].kind is Varargs,
                varkwargs_idx is Some ==> varkwargs_idx->Some_0 == idx - 1 && all[idx - 1].kind is Varkwargs,
                seen_pos_or_kw <==> role_before(all, idx as int, FieldKind::PosOrKeyword),
                seen_kw_only <==> role_before(all, idx as int, FieldKind::KwOnly),
                pos_counter <= idx,
                pos_counter == count_kind(out@, true, false),
                forall|j: int| 0 <= j < idx ==> (positional(#[trigger] role(all, j)) <==> j < pos_counter),
                forall|j: int|
                    0 <= j < idx ==> (#[trigger] out@[j]).pos_index == if j < pos_counter {
                        Some((j + 1) as usize)
                    } else {
                        None
                    },
                forall|j: int|
                    0 <= j < idx ==> ((#[trigger] all[j]).kind is Varargs <==> varargs_idx == Some(j as usize)),
                forall|j: int|
                    0 <= j < idx ==> ((#[trigger] all[j]).kind is Varkwargs <==> varkwargs_idx == Some(j as usize)),
        {
            let ghost i = idx as int;
            let ghost before = out@;
            proof {
                lemma_seen_step(all, i);
            }
            if varkwargs_idx.is_some() {
                return Err("no fields may appear after a `#[from_args(varkwargs)]` field".to_owned());
            }
            let mut kind: FieldKind = decl.kind;
            match decl.kind {
                FieldKind::PosOnly => {
                    if seen_pos_or_kw || seen_kw_only || varargs_idx.is_some() {
                        return Err(
                            "positional-only fields must come before positional-or-keyword, varargs, and keyword-only fields".to_owned(),
                        );
                    }
                },
                FieldKind::PosOrKeyword => {
                    if varargs_idx.is_some() {
                        kind = FieldKind::KwOnly;
                        seen_kw_only = true;
                    } else if seen_kw_only {
                        return Err(
                            "positional-or-keyword fields cannot appear after keyword-only fields".to_owned(),
                        );
                    } else {
                        seen_pos_or_kw = true;
                    }
                },
                FieldKind::KwOnly => {
                    seen_kw_only = true;
                },
                FieldKind::Varargs => {
                    if varargs_idx.is_some() {
                        return Err("only one `#[from_args(varargs)]` field is allowed".to_owned());
                    }
                    varargs_idx = Some(idx);
                },
                FieldKind::Varkwargs => {
                    varkwargs_idx = Some(idx);
                },
            }
            let is_positional: bool = match kind {
                FieldKind::PosOnly | FieldKind::PosOrKeyword => true,
                _ => false,
            };
            proof {
                assert(kind == role(all, i));
                assert(field_error(all, i) is None);
                if is_positional {
                    assert forall|j: int| 0 <= j < i implies positional(#[trigger] role(all, j)) by {
                        if role(all, j) is KwOnly {
                            assert(role_before(all, i, FieldKind::KwOnly));
                        }
                        if role(all, j) is Varargs {
                            assert(all[j].kind is Varargs);
                            assert(declared_before(all, i, FieldKind::Varargs));
                        }
                        if role(all, j) is Varkwargs {
                            assert(all[j].kind is Varkwargs);
                            assert(declared_before(all, i, FieldKind::Varkwargs));
                        }
                    }
                    if pos_counter < i {
                        assert(positional(role(all, pos_counter as int)));
                    }
                }
            }
            let pos_index: Option<usize> = if is_positional {
                pos_counter = pos_counter + 1;
                Some(pos_counter)
            } else {
                None
            };
            out.push(Field { decl, kind, pos_index });
            idx = idx + 1;
            proof {
                assert(out@.drop_last() =~= before);
                assert(out@.last().kind == kind);
            }
        }
        let varargs: bool = varargs_idx.is_some();
        let varkwargs: bool = varkwargs_idx.is_some();
        if attrs.at_most_total && (varargs || varkwargs) {
            return Err(
                "`at_most_total` cannot be combined with `varargs` or `varkwargs` — the up-front total-count check is only meaningful for signatures with a fixed maximum".to_owned(),
            );
        }
        if attrs.expected_exact && (varargs || attrs.at_most_total) {
            return Err(
                "`expected_exact` cannot be combined with `varargs` or `at_most_total` — the exact-arity wording assumes a single fixed required positional count".to_owned(),
            );
        }
        if attrs.kwargs_not_supported_yet {
            if varkwargs {
                return Err(
                    "`kwargs_not_supported_yet` cannot be combined with `varkwargs` — the flag rejects every kwarg up front, so there's nothing to collect".to_owned(),
                );
            }
            if seen_kw_only {
                return Err(
                    "`kwargs_not_supported_yet` cannot be combined with `kw_only` fields — the flag rejects every kwarg up front, so kw_only slots are unreachable".to_owned(),
                );
            }
            if attrs.kwarg_error_name.is_some() {
                return Err(
                    "`kwargs_not_supported_yet` cannot be combined with `kwarg_error_name` — the override only applies to the unknown-kwarg dispatch path, which is skipped".to_owned(),
                );
            }
        }
        let sig: Signature = Signature { attrs, fields: out, varargs_idx, varkwargs_idx };
        Ok(sig)
    }
}

/// What has been seen before a field, in terms of what was seen before the
/// one before it.
proof fn lemma_seen_step(fields: Seq<FieldDecl>, i: int)
    requires
        0 <= i < fields.len(),
    ensures
        forall|k: FieldKind| #[trigger]
            declared_before(fields, i + 1, k) <==> declared_before(fields, i, k) || fields[i].kind == k,
        forall|k: FieldKind| #[trigger]
            role_before(fields, i + 1, k) <==> role_before(fields, i, k) || role(fields, i) == k,
{
    assert forall|k: FieldKind| #[trigger]
        declared_before(fields, i + 1, k) <==> declared_before(fields, i, k) || fields[i].kind == k by {
        if declared_before(fields, i + 1, k) {
            let j = choose|j: int| 0 <= j < i + 1 && (#[trigger] fields[j]).kind == k;
            if j < i {
                assert(declared_before(fields, i, k));
            }
        }
        if declared_before(fields, i, k) {
            let j = choose|j: int| 0 <= j < i && (#[trigger] fields[j]).kind == k;
            assert(0 <= j < i + 1 && fields[j].kind == k);
        }
        if fields[i].kind == k {
            assert(0 <= i < i + 1);
        }
    }
    assert forall|k: FieldKind| #[trigger]
        role_before(fields, i + 1, k) <==> role_before(fields, i, k) || role(fields, i) == k by {
        if role_before(fields, i + 1, k) {
            let j = choose|j: int| 0 <= j < i + 1 && #[trigger] role(fields, j) == k;
            if j < i {
                assert(role_before(fields, i, k));
            }
        }
        if role_before(fields, i, k) {
            let j = choose|j: int| 0 <= j < i && #[trigger] role(fields, j) == k;
            assert(0 <= j < i + 1 && role(fields, j) == k);
        }
        if role(fields, i) == k {
            assert(0 <= i < i + 1);
        }
    }
}

// ---------------------------------------------------------------------------
// Attributes
// ---------------------------------------------------------------------------

/// An entry of an attribute.
#[derive(Debug)]
pub struct MetaEntry {
    pub key: String,
    /// The text assigned to the key, or why there is none.
    pub text: Result<String, String>,
    /// Whether an `=` follows the key.
    pub assigned: bool,
    /// Why the expression assigned to the key could not be read.
    pub expr_error: Option<String>,
}

/// The options read so far.
#[derive(Debug)]
pub struct StructOptions {
    pub name: Option<String>,
    pub at_most_style: AtMostStyle,
    pub named_c: bool,
    pub plain_c: bool,
    pub at_most_total: bool,
    pub expected_exact: bool,
    pub kwarg_error_name: Option<String>,
    pub bad_arg: Option<BadArgStyle>,
    pub kwargs_not_supported_yet: bool,
}

/// The text of an entry, or why it has none.
pub open spec fn entry_text(e: MetaEntry) -> Result<String, Seq<char>> {
    match e.text {
        Ok(text) => Ok(text),
        Err(message) => Err(message@),
    }
}

fn read_text(e: &MetaEntry) -> (r: Result<String, String>)
    ensures
        match entry_text(*e) {
            Ok(text) => r == Ok::<String, String>(text),
            Err(message) => r is Err && r->Err_0@ == message,
        },
{
    match &e.text {
        Ok(text) => Ok(text.clone()),
        Err(message) => Err(message.clone()),
    }
}

/// The options before anything is read.
pub open spec fn no_options() -> StructOptions {
    StructOptions {
        name: None,
        at_most_style: AtMostStyle::Standard,
        named_c: false,
        plain_c: false,
        at_most_total: false,
        expected_exact: false,
        kwarg_error_name: None,
        bad_arg: None,
        kwargs_not_supported_yet: false,
    }
}

/// The options after one more entry.
pub open spec fn option_step(o: StructOptions, e: MetaEntry) -> Result<StructOptions, Seq<char>> {
    let key = e.key@;
    if key == "name"@ {
        match entry_text(e) {
            Ok(text) => Ok(StructOptions { name: Some(text), ..o }),
            Err(message) => Err(message),
        }
    } else if key == "at_most_positional"@ {
        Ok(StructOptions { at_most_style: AtMostStyle::Positional, ..o })
    } else if key == "at_most_total"@ {
        Ok(StructOptions { at_most_total: true, ..o })
    } else if key == "expected_exact"@ {
        Ok(StructOptions { expected_exact: true, ..o })
    } else if key == "kwarg_error_name"@ {
        match entry_text(e) {
            Ok(text) => Ok(StructOptions { kwarg_error_name: Some(text), ..o }),
            Err(message) => Err(message),
        }
    } else if key == "bad_arg"@ || key == "bad_arg_named"@ {
        if o.bad_arg is Some {
            Err("`bad_arg` and `bad_arg_named` are mutually exclusive"@)
        } else {
            Ok(
                StructOptions {
                    bad_arg: Some(if key == "bad_arg"@ { BadArgStyle::Positional } else { BadArgStyle::Named }),
                    ..o
                },
            )
        }
    } else if key == "c_error"@ || key == "c_error_named"@ {
        if o.plain_c || o.named_c {
            Err("`c_error` and `c_error_named` are mutually exclusive"@)
        } else if key == "c_error"@ {
            Ok(StructOptions { plain_c: true, ..o })
        } else {
            Ok(StructOptions { named_c: true, ..o })
        }
    } else if key == "kwargs_not_supported_yet"@ {
        Ok(StructOptions { kwargs_not_supported_yet: true, ..o })
    } else {
        Err(
            "unknown struct attribute; expected `name = \"...\"`, `at_most_positional`, `at_most_total`, `expected_exact`, `kwarg_error_name = \"...\"`, `bad_arg`, `bad_arg_named`, `c_error`, `c_error_named`, or `kwargs_not_supported_yet`"@,
        )
    }
}

/// The options after all entries, or the first thing wrong with them.
pub open spec fn options_after(entries: Seq<MetaEntry>) -> Result<StructOptions, Seq<char>>
    decreases entries.len(),
{
    if entries.len() == 0 {
        Ok(no_options())
    } else {
        match options_after(entries.drop_last()) {
            Err(message) => Err(message),
            Ok(o) => option_step(o, entries.last()),
        }
    }
}

/// The attributes of a signature, or what is wrong with them.
pub open spec fn struct_attrs(entries: Seq<MetaEntry>) -> Result<StructAttrs, Seq<char>> {
    match options_after(entries) {
        Err(message) => Err(message),
        Ok(o) => match o.name {
            None => Err("missing `#[from_args(name = \"...\")]` on the struct"@),
            Some(name) => Ok(
                StructAttrs {
                    name,
                    error_style: if o.plain_c {
                        ErrorStyle::C(o.at_most_style)
                    } else if o.named_c {
                        ErrorStyle::NamedC
                    } else {
                        ErrorStyle::Python
                    },
                    at_most_total: o.at_most_total,
                    expected_exact: o.expected_exact,
                    kwarg_error_name: o.kwarg_error_name,
                    bad_arg: o.bad_arg,
                    kwargs_not_supported_yet: o.kwargs_not_supported_yet,
                },
            ),
        },
    }
}

fn apply_option(o: StructOptions, e: &MetaEntry) -> (r: Result<StructOptions, String>)
    ensures
        match option_step(o, *e) {
            Ok(next) => r == Ok::<StructOptions, String>(next),
            Err(message) => r is Err && r->Err_0@ == message,
        },
{
    let mut o: StructOptions = o;
    let key: &str = e.key.as_str();
    if same(key, "name") {
        match read_text(e) {
            Ok(text) => {
                o.name = Some(text);
            },
            Err(message) => return Err(message),
        }
    } else if same(key, "at_most_positional") {
        o.at_most_style = AtMostStyle::Positional;
    } else if same(key, "at_most_total") {
        o.at_most_total = true;
    } else if same(key, "expected_exact") {
        o.expected_exact = true;
    } else if same(key, "kwarg_error_name") {
        match read_text(e) {
            Ok(text) => {
                o.kwarg_error_name = Some(text);
            },
            Err(message) => return Err(message),
        }
    } else if same(key, "bad_arg") || same(key, "bad_arg_named") {
        if o.bad_arg.is_some() {
            return Err("`bad_arg` and `bad_arg_named` are mutually exclusive".to_owned());
        }
        o.bad_arg = if same(key, "bad_arg") { Some(BadArgStyle::Positional) } else { Some(BadArgStyle::Named) };
    } else if same(key, "c_error") || same(key, "c_error_named") {
        if o.plain_c || o.named_c {
            return Err("`c_error` and `c_error_named` are mutually exclusive".to_owned());
        }
        if same(key, "c_error") {
            o.plain_c = true;
        } else {
            o.named_c = true;
        }
    } else if same(key, "kwargs_not_supported_yet") {
        o.kwargs_not_supported_yet = true;
    } else {
        return Err(
            "unknown struct attribute; expected `name = \"...\"`, `at_most_positional`, `at_most_total`, `expected_exact`, `kwarg_error_name = \"...\"`, `bad_arg`, `bad_arg_named`, `c_error`, `c_error_named`, or `kwargs_not_supported_yet`".to_owned(),
        );
    }
    Ok(o)
}

proof fn lemma_options_error(entries: Seq<MetaEntry>, k: int)
    requires
        0 <= k <= entries.len(),
        options_after(entries.take(k)) is Err,
    ensures
        options_after(entries) == options_after(entries.take(k)),
    decreases entries.len() - k,
{
    if k < entries.len() {
        assert(entries.take(k + 1).drop_last() =~= entries.take(k));
        lemma_options_error(entries, k + 1);
    } else {
        assert(entries.take(k) =~= entries);
    }
}

/// Reads the attributes of a signature.
pub fn parse_struct_attrs(entries: &Vec<MetaEntry>) -> (r: Result<StructAttrs, String>)
    ensures
        match struct_attrs(entries@) {
            Ok(attrs) => r == Ok::<StructAttrs, String>(attrs),
            Err(message) => r is Err && r->Err_0@ == message,
        },
{
    let mut o: StructOptions = StructOptions {
        name: None,
        at_most_style: AtMostStyle::Standard,
        named_c: false,
        plain_c: false,
        at_most_total: false,
        expected_exact: false,
        kwarg_error_name: None,
        bad_arg: None,
        kwargs_not_supported_yet: false,
    };
    let mut i: usize = 0;
    proof {
        assert(entries@.take(0).len() == 0);
    }
    while i < entries.len()
        invariant
            i <= entries@.len(),
            options_after(entries@.take(i as int)) == Ok::<StructOptions, Seq<char>>(o),
        decreases entries@.len() - i,
    {
        proof {
            assert(entries@.take(i + 1).drop_last() =~= entries@.take(i as int));
            assert(entries@.take(i + 1).last() == entries@[i as int]);
        }
        match apply_option(o, &entries[i]) {
            Ok(next) => {
                o = next;
            },
            Err(message) => {
                proof {
                    lemma_options_error(entries@, i + 1);
                }
                return Err(message);
            },
        }
        i = i + 1;
    }
    proof {
        assert(entries@.take(entries@.len() as int) =~= entries@);
    }
    match o.name {
        None => Err("missing `#[from_args(name = \"...\")]` on the struct".to_owned()),
        Some(name) => Ok(
            StructAttrs {
                name,
                error_style: if o.plain_c {
                    ErrorStyle::C(o.at_most_style)
                } else if o.named_c {
                    ErrorStyle::NamedC
                } else {
                    ErrorStyle::Python
                },
                at_most_total: o.at_most_total,
                expected_exact: o.expected_exact,
                kwarg_error_name: o.kwarg_error_name,
                bad_arg: o.bad_arg,
                kwargs_not_supported_yet: o.kwargs_not_supported_yet,
            },
        ),
    }
}

/// Where the default of a field comes from.
#[derive(Clone, Copy, Debug, PartialEq, Eq, Structural)]
pub enum DefaultSource {
    /// The type's own default.
    TypeDefault,
    /// The expression of the entry at this index.
    Entry(usize),
}

/// The attributes of a field.
#[derive(Debug)]
pub struct FieldAttrs {
    pub kind: FieldKind,
    /// Whether a role has been given.
    pub role_given: bool,
    pub default: Option<DefaultSource>,
    pub static_string: Option<String>,
}

/// The role that a key names.
pub open spec fn role_of_key(key: Seq<char>) -> Option<FieldKind> {
    if key == "pos_only"@ {
        Some(FieldKind::PosOnly)
    } else if key == "kw_only"@ {
        Some(FieldKind::KwOnly)
    } else if key == "varargs"@ {
        Some(FieldKind::Varargs)
    } else if key == "varkwargs"@ {
        Some(FieldKind::Varkwargs)
    } else {
        None
    }
}

fn parse_role(key: &str) -> (r: Option<FieldKind>)
    ensures
        r == role_of_key(key@),
{
    if same(key, "pos_only") {
        Some(FieldKind::PosOnly)
    } else if same(key, "kw_only") {
        Some(FieldKind::KwOnly)
    } else if same(key, "varargs") {
        Some(FieldKind::Varargs)
    } else if same(key, "varkwargs") {
        Some(FieldKind::Varkwargs)
    } else {
        None
    }
}

/// The attributes of a field before anything is read.
pub open spec fn no_field_attrs() -> FieldAttrs {
    FieldAttrs { kind: FieldKind::PosOrKeyword, role_given: false, default: None, static_string: None }
}

/// The attributes of a field after one more entry.
pub open spec fn field_attr_step(a: FieldAttrs, e: MetaEntry, i: int) -> Result<FieldAttrs, Seq<char>> {
    match role_of_key(e.key@) {
        Some(kind) => if a.role_given {
            Err("only one of `pos_only`, `kw_only`, `varargs`, `varkwargs` may be set"@)
        } else {
            Ok(FieldAttrs { kind, role_given: true, ..a })
        },
        None => if e.key@ == "default"@ {
            if a.default is Some {
                Err("duplicate `default` attribute"@)
            } else if e.assigned && e.expr_error is Some {
                Err(e.expr_error->Some_0@)
            } else if e.assigned {
                Ok(FieldAttrs { default: Some(DefaultSource::Entry(i as usize)), ..a })
            } else {
                Ok(FieldAttrs { default: Some(DefaultSource::TypeDefault), ..a })
            }
        } else if e.key@ == "static_string"@ {
            match entry_text(e) {
                Ok(text) => Ok(FieldAttrs { static_string: Some(text), ..a }),
                Err(message) => Err(message),
            }
        } else {
            Err("unknown field attribute"@)
        },
    }
}

/// The attributes of a field, or the first thing wrong with them.
pub open spec fn field_attrs(entries: Seq<MetaEntry>) -> Result<FieldAttrs, Seq<char>>
    decreases entries.len(),
{
    if entries.len() == 0 {
        Ok(no_field_attrs())
    } else {
        match field_attrs(entries.drop_last()) {
            Err(message) => Err(message),
            Ok(a) => field_attr_step(a, entries.last(), entries.len() - 1),
        }
    }
}

proof fn lemma_field_attrs_error(entries: Seq<MetaEntry>, k: int)
    requires
        0 <= k <= entries.len(),
        field_attrs(entries.take(k)) is Err,
    ensures
        field_attrs(entries) == field_attrs(entries.take(k)),
    decreases entries.len() - k,
{
    if k < entries.len() {
        assert(entries.take(k + 1).drop_last() =~= entries.take(k));
        lemma_field_attrs_error(entries, k + 1);
    } else {
        assert(entries.take(k) =~= entries);
    }
}

/// Reads the attributes of a field.
pub fn parse_field_attrs(entries: &Vec<MetaEntry>) -> (r: Result<FieldAttrs, String>)
    ensures
        match field_attrs(entries@) {
            Ok(a) => r == Ok::<FieldAttrs, String>(a),
            Err(message) => r is Err && r->Err_0@ == message,
        },
{
    let mut a: FieldAttrs = FieldAttrs {
        kind: FieldKind::PosOrKeyword,
        role_given: false,
        default: None,
        static_string: None,
    };
    let mut i: usize = 0;
    proof {
        assert(entries@.take(0).len() == 0);
    }
    while i < entries.len()
        invariant
            i <= entries@.len(),
            field_attrs(entries@.take(i as int)) == Ok::<FieldAttrs, Seq<char>>(a),
        decreases entries@.len() - i,
    {
        let e: &MetaEntry = &entries[i];
        proof {
            assert(entries@.take(i + 1).drop_last() =~= entries@.take(i as int));
            assert(entries@.take(i + 1).last() == *e);
            if field_attr_step(a, *e, i as int) is Err {
                lemma_field_attrs_error(entries@, i + 1);
            }
        }
        match parse_role(e.key.as_str()) {
            Some(kind) => {
                if a.role_given {
                    return Err("only one of `pos_only`, `kw_only`, `varargs`, `varkwargs` may be set".to_owned());
                }
                a.kind = kind;
                a.role_given = true;
            },
            None => {
                if same(e.key.as_str(), "default") {
                    if a.default.is_some() {
                        return Err("duplicate `default` attribute".to_owned());
                    }
                    if e.assigned {
                        if let Some(message) = &e.expr_error {
                            return Err(message.clone());
                        }
                        a.default = Some(DefaultSource::Entry(i));
                    } else {
                        a.default = Some(DefaultSource::TypeDefault);
                    }
                } else if same(e.key.as_str(), "static_string") {
                    match read_text(e) {
                        Ok(text) => {
                            a.static_string = Some(text);
                        },
                        Err(message) => return Err(message),
                    }
                } else {
                    return Err("unknown field attribute".to_owned());
                }
            },
        }
        i = i + 1;
    }
    proof {
        assert(entries@.take(entries@.len() as int) =~= entries@);
    }
    Ok(a)
}

/// How the keyword of a field is looked up among interned strings.
#[derive(Debug)]
pub enum KeywordId {
    /// A single ASCII character.
    Ascii(u8),
    /// The interned string with this name.
    Interned(String),
}

/// How the keyword of a field is looked up: a single ASCII character has an
/// id of its own unless a string is given.
pub fn kwarg_string_id(decl: &FieldDecl) -> (r: KeywordId)
    ensures
        match decl.static_string {
            Some(name) => r == KeywordId::Interned(name),
            None => if decl.name@.len() == 1 && (decl.name@[0] as u32) < 128 {
                r is Ascii && r->Ascii_0 as u32 == decl.name@[0] as u32
            } else {
                r is Interned && r->Interned_0@ == pascal(decl.name@) && (is_ascii(decl.name@)
                    ==> r->Interned_0@ == ascii_pascal(decl.name@))
            },
        },
{
    match &decl.static_string {
        Some(name) => KeywordId::Interned(name.clone()),
        None => {
            let chars: Vec<char> = chars_of(decl.name.as_str());
            if chars.len() == 1 {
                let code: u32 = chars[0] as u32;
                if code < 128 {
                    return KeywordId::Ascii(code as u8);
                }
            }
            KeywordId::Interned(snake_to_pascal(decl.name.as_str()))
        },
    }
}

// ---------------------------------------------------------------------------
// What declarations and attributes come to
// ---------------------------------------------------------------------------

proof fn lemma_first_field_error(fields: Seq<FieldDecl>, from: int)
    requires
        0 <= from <= fields.len(),
    ensures
        match fields_error(fields, from) {
            None => forall|i: int| from <= i < fields.len() ==> (#[trigger] field_error(fields, i)) is None,
            Some(message) => exists|i: int|
                {
                    &&& from <= i < fields.len()
                    &&& #[trigger] field_error(fields, i) == Some(message)
                    &&& forall|j: int| from <= j < i ==> (#[trigger] field_error(fields, j)) is None
                },
        },
    decreases fields.len() - from,
{
    if from < fields.len() {
        if field_error(fields, from) is Some {
            assert(field_error(fields, from) == fields_error(fields, from));
        } else {
            lemma_first_field_error(fields, from + 1);
            if fields_error(fields, from) is Some {
                let message = fields_error(fields, from)->Some_0;
                let i = choose|i: int|
                    {
                        &&& from + 1 <= i < fields.len()
                        &&& #[trigger] field_error(fields, i) == Some(message)
                        &&& forall|j: int| from + 1 <= j < i ==> (#[trigger] field_error(fields, j)) is None
                    };
                assert(field_error(fields, i) == Some(message));
            }
        }
    }
}

/// Whether two fields, the first before the second, may stand in this order.
pub open spec fn may_precede(fields: Seq<FieldDecl>, i: int, j: int) -> bool {
    &&& !(fields[i].kind is Varkwargs)
    &&& fields[j].kind is PosOnly ==> fields[i].kind is PosOnly
    &&& fields[j].kind is Varargs ==> !(fields[i].kind is Varargs)
    &&& fields[j].kind is PosOrKeyword && fields[i].kind is KwOnly ==> exists|v: int|
        0 <= v < j && (#[trigger] fields[v]).kind is Varargs
}

proof fn lemma_field_sound(fields: Seq<FieldDecl>, j: int)
    requires
        0 <= j < fields.len(),
    ensures
        field_error(fields, j) is None <==> forall|i: int| 0 <= i < j ==> #[trigger] may_precede(fields, i, j),
{
    if field_error(fields, j) is None {
        assert forall|i: int| 0 <= i < j implies #[trigger] may_precede(fields, i, j) by {
            assert(role(fields, i) == fields[i].kind || role(fields, i) is KwOnly);
            if fields[i].kind is Varkwargs {
                assert(declared_before(fields, j, FieldKind::Varkwargs));
            }
            if fields[i].kind is Varargs {
                assert(declared_before(fields, j, FieldKind::Varargs));
            }
            if role(fields, i) is PosOrKeyword {
                assert(role_before(fields, j, FieldKind::PosOrKeyword));
            }
            if role(fields, i) is KwOnly {
                assert(role_before(fields, j, FieldKind::KwOnly));
            }
            if fields[j].kind is PosOrKeyword && fields[i].kind is KwOnly {
                assert(declared_before(fields, j, FieldKind::Varargs));
                let v = choose|v: int| 0 <= v < j && (#[trigger] fields[v]).kind == FieldKind::Varargs;
                assert(fields[v].kind is Varargs);
            }
        }
    } else {
        if declared_before(fields, j, FieldKind::Varkwargs) {
            let i = choose|i: int| 0 <= i < j && (#[trigger] fields[i]).kind == FieldKind::Varkwargs;
            assert(!may_precede(fields, i, j));
        } else if fields[j].kind is PosOnly {
            if role_before(fields, j, FieldKind::PosOrKeyword) {
                let i = choose|i: int| 0 <= i < j && #[trigger] role(fields, i) == FieldKind::PosOrKeyword;
                assert(!may_precede(fields, i, j));
            } else if role_before(fields, j, FieldKind::KwOnly) {
                let i = choose|i: int| 0 <= i < j && #[trigger] role(fields, i) == FieldKind::KwOnly;
                assert(!may_precede(fields, i, j));
            } else {
                let i = choose|i: int| 0 <= i < j && (#[trigger] fields[i]).kind == FieldKind::Varargs;
                assert(!may_precede(fields, i, j));
            }
        } else if fields[j].kind is Varargs {
            let i = choose|i: int| 0 <= i < j && (#[trigger] fields[i]).kind == FieldKind::Varargs;
            assert(!may_precede(fields, i, j));
        } else {
            let i = choose|i: int| 0 <= i < j && #[trigger] role(fields, i) == FieldKind::KwOnly;
            if fields[i].kind is PosOrKeyword {
                let v = choose|v: int| 0 <= v < i && (#[trigger] fields[v]).kind == FieldKind::Varargs;
                assert(declared_before(fields, j, FieldKind::Varargs));
            }
            if may_precede(fields, i, j) {
                let v = choose|v: int| 0 <= v < j && (#[trigger] fields[v]).kind is Varargs;
                assert(declared_before(fields, j, FieldKind::Varargs));
            }
            assert(!may_precede(fields, i, j));
        }
    }
}

/// Fields are accepted exactly where any two of them may stand in their order:
/// positional-only ones first, nothing behind `**kwargs`, `*args` once, and no
/// ordinary field behind a keyword-only one unless `*args` stands before it.
pub proof fn law_fields_are_accepted_in_order(fields: Seq<FieldDecl>)
    ensures
        fields_error(fields, 0) is None <==> forall|i: int, j: int|
            0 <= i < j < fields.len() ==> #[trigger] may_precede(fields, i, j),
{
    lemma_first_field_error(fields, 0);
    if fields_error(fields, 0) is None {
        assert forall|i: int, j: int| 0 <= i < j < fields.len() implies #[trigger] may_precede(fields, i, j) by {
            assert(field_error(fields, j) is None);
            lemma_field_sound(fields, j);
        }
    } else {
        let message = fields_error(fields, 0)->Some_0;
        let j = choose|j: int|
            {
                &&& 0 <= j < fields.len()
                &&& #[trigger] field_error(fields, j) == Some(message)
                &&& forall|k: int| 0 <= k < j ==> (#[trigger] field_error(fields, k)) is None
            };
        lemma_field_sound(fields, j);
        let i = choose|i: int| 0 <= i < j && !#[trigger] may_precede(fields, i, j);
        assert(!may_precede(fields, i, j));
    }
}

/// A field keeps the role that it is declared with, but that an ordinary one
/// behind `*args` can be given by keyword only.
pub proof fn law_fields_keep_their_roles(fields: Seq<FieldDecl>, i: int)
    requires
        0 <= i < fields.len(),
    ensures
        fields[i].kind is PosOrKeyword && (exists|v: int| 0 <= v < i && (#[trigger] fields[v]).kind is Varargs) ==> role(
            fields,
            i,
        ) is KwOnly,
        !(fields[i].kind is PosOrKeyword) ==> role(fields, i) == fields[i].kind,
        (forall|v: int| 0 <= v < i ==> !((#[trigger] fields[v]).kind is Varargs)) ==> role(fields, i) == fields[i].kind,
{
    if exists|v: int| 0 <= v < i && (#[trigger] fields[v]).kind is Varargs {
        let v = choose|v: int| 0 <= v < i && (#[trigger] fields[v]).kind is Varargs;
        assert(fields[v].kind == FieldKind::Varargs);
        assert(declared_before(fields, i, FieldKind::Varargs));
    }
}

/// The options of a declaration are refused exactly where they contradict its
/// fields or each other.
pub proof fn law_options_must_fit_the_fields(attrs: StructAttrs, fields: Seq<FieldDecl>)
    ensures
        ({
            let varargs = exists|v: int| 0 <= v < fields.len() && (#[trigger] fields[v]).kind is Varargs;
            let varkwargs = exists|v: int| 0 <= v < fields.len() && (#[trigger] fields[v]).kind is Varkwargs;
            let kw_only = exists|v: int| 0 <= v < fields.len() && (#[trigger] role(fields, v)) is KwOnly;
            options_error(attrs, fields) is None <==> {
                &&& attrs.at_most_total ==> !varargs && !varkwargs
                &&& attrs.expected_exact ==> !varargs && !attrs.at_most_total
                &&& attrs.kwargs_not_supported_yet ==> !varkwargs && !kw_only && attrs.kwarg_error_name is None
            }
        }),
{
    let n = fields.len() as int;
    let varargs = exists|v: int| 0 <= v < fields.len() && (#[trigger] fields[v]).kind is Varargs;
    let varkwargs = exists|v: int| 0 <= v < fields.len() && (#[trigger] fields[v]).kind is Varkwargs;
    let kw_only = exists|v: int| 0 <= v < fields.len() && (#[trigger] role(fields, v)) is KwOnly;
    assert(varargs <==> declared_before(fields, n, FieldKind::Varargs)) by {
        if varargs {
            let v = choose|v: int| 0 <= v < fields.len() && (#[trigger] fields[v]).kind is Varargs;
            assert(fields[v].kind == FieldKind::Varargs);
        }
    }
    assert(varkwargs <==> declared_before(fields, n, FieldKind::Varkwargs)) by {
        if varkwargs {
            let v = choose|v: int| 0 <= v < fields.len() && (#[trigger] fields[v]).kind is Varkwargs;
            assert(fields[v].kind == FieldKind::Varkwargs);
        }
    }
    assert(kw_only <==> role_before(fields, n, FieldKind::KwOnly)) by {
        if kw_only {
            let v = choose|v: int| 0 <= v < fields.len() && (#[trigger] role(fields, v)) is KwOnly;
            assert(role(fields, v) == FieldKind::KwOnly);
        }
    }
}

/// Whether an entry with this key is there.
pub open spec fn has_entry(entries: Seq<MetaEntry>, key: Seq<char>) -> bool {
    exists|i: int| 0 <= i < entries.len() && (#[trigger] entries[i]).key@ == key
}

/// The text of the last entry with this key.
pub open spec fn is_last_text(entries: Seq<MetaEntry>, key: Seq<char>, text: String) -> bool {
    exists|i: int|
        {
            &&& 0 <= i < entries.len()
            &&& (#[trigger] entries[i]).key@ == key
            &&& entries[i].text == Ok::<String, String>(text)
            &&& forall|j: int| i < j < entries.len() ==> (#[trigger] entries[j]).key@ != key
        }
}

proof fn lemma_one_more_entry(entries: Seq<MetaEntry>, key: Seq<char>)
    requires
        entries.len() > 0,
    ensures
        has_entry(entries, key) <==> entries.last().key@ == key || has_entry(entries.drop_last(), key),
        forall|text: String|
            entries.last().key@ == key && entries.last().text == Ok::<String, String>(text) ==> #[trigger] is_last_text(
                entries,
                key,
                text,
            ),
        forall|text: String|
            entries.last().key@ != key && is_last_text(entries.drop_last(), key, text) ==> #[trigger] is_last_text(
                entries,
                key,
                text,
            ),
{
    let front = entries.drop_last();
    let last = entries.len() - 1;
    assert forall|i: int| 0 <= i < front.len() implies #[trigger] front[i] == entries[i] by {}
    if has_entry(front, key) {
        let i = choose|i: int| 0 <= i < front.len() && (#[trigger] front[i]).key@ == key;
        assert(entries[i].key@ == key);
    }
    if has_entry(entries, key) && entries.last().key@ != key {
        let i = choose|i: int| 0 <= i < entries.len() && (#[trigger] entries[i]).key@ == key;
        assert(front[i].key@ == key);
    }
    if entries.last().key@ == key {
        assert(entries[last].key@ == key);
    }
    assert forall|text: String|
        entries.last().key@ == key && entries.last().text == Ok::<String, String>(text) implies #[trigger] is_last_text(
        entries,
        key,
        text,
    ) by {
        assert(entries[last].key@ == key);
    }
    assert forall|text: String|
        entries.last().key@ != key && is_last_text(front, key, text) implies #[trigger] is_last_text(entries, key, text) by {
        let i = choose|i: int|
            {
                &&& 0 <= i < front.len()
                &&& (#[trigger] front[i]).key@ == key
                &&& front[i].text == Ok::<String, String>(text)
                &&& forall|j: int| i < j < front.len() ==> (#[trigger] front[j]).key@ != key
            };
        assert(entries[i].key@ == key);
        assert forall|j: int| i < j < entries.len() implies (#[trigger] entries[j]).key@ != key by {
            if j < last {
                assert(front[j].key@ != key);
            }
        }
    }
}

proof fn lemma_option_keys_differ()
    ensures
        ({
            let keys = seq![
                "name"@,
                "at_most_positional"@,
                "at_most_total"@,
                "expected_exact"@,
                "kwarg_error_name"@,
                "bad_arg"@,
                "bad_arg_named"@,
                "c_error"@,
                "c_error_named"@,
                "kwargs_not_supported_yet"@,
            ];
            forall|i: int, j: int| 0 <= i < j < keys.len() ==> #[trigger] keys[i] != #[trigger] keys[j]
        }),
{
    reveal_strlit("name");
    reveal_strlit("at_most_positional");
    reveal_strlit("at_most_total");
    reveal_strlit("expected_exact");
    reveal_strlit("kwarg_error_name");
    reveal_strlit("bad_arg");
    reveal_strlit("bad_arg_named");
    reveal_strlit("c_error");
    reveal_strlit("c_error_named");
    reveal_strlit("kwargs_not_supported_yet");
    assert("name"@.len() == 4 && "at_most_positional"@.len() == 18 && "at_most_total"@.len() == 13);
    assert("expected_exact"@.len() == 14 && "kwarg_error_name"@.len() == 16 && "bad_arg"@.len() == 7);
    assert("bad_arg_named"@.len() == 13 && "c_error"@.len() == 7 && "c_error_named"@.len() == 13);
    assert("kwargs_not_supported_yet"@.len() == 24);
    assert("at_most_total"@[0] == 'a' && "bad_arg_named"@[0] == 'b' && "c_error_named"@[0] == 'c');
    assert("bad_arg"@[0] == 'b' && "c_error"@[0] == 'c');
}

/// What the options say once all entries have been read.
spec fn options_match(entries: Seq<MetaEntry>, o: StructOptions) -> bool {
    &&& o.name is None <==> !has_entry(entries, "name"@)
    &&& o.name is Some ==> is_last_text(entries, "name"@, o.name->Some_0)
    &&& o.at_most_style is Positional <==> has_entry(entries, "at_most_positional"@)
    &&& o.at_most_total <==> has_entry(entries, "at_most_total"@)
    &&& o.expected_exact <==> has_entry(entries, "expected_exact"@)
    &&& o.kwarg_error_name is None <==> !has_entry(entries, "kwarg_error_name"@)
    &&& o.kwarg_error_name is Some ==> is_last_text(entries, "kwarg_error_name"@, o.kwarg_error_name->Some_0)
    &&& o.bad_arg == Some(BadArgStyle::Positional) <==> has_entry(entries, "bad_arg"@)
    &&& o.bad_arg == Some(BadArgStyle::Named) <==> has_entry(entries, "bad_arg_named"@)
    &&& o.plain_c <==> has_entry(entries, "c_error"@)
    &&& o.named_c <==> has_entry(entries, "c_error_named"@)
    &&& o.kwargs_not_supported_yet <==> has_entry(entries, "kwargs_not_supported_yet"@)
}

#[verifier::rlimit(60)]
proof fn lemma_options_match(entries: Seq<MetaEntry>)
    requires
        options_after(entries) is Ok,
    ensures
        options_match(entries, options_after(entries)->Ok_0),
    decreases entries.len(),
{
    if entries.len() > 0 {
        let front = entries.drop_last();
        lemma_options_match(front);
        lemma_option_keys_differ();
        let keys = seq![
            "name"@,
            "at_most_positional"@,
            "at_most_total"@,
            "expected_exact"@,
            "kwarg_error_name"@,
            "bad_arg"@,
            "bad_arg_named"@,
            "c_error"@,
            "c_error_named"@,
            "kwargs_not_supported_yet"@,
        ];
        assert(keys[0] == "name"@ && keys[1] == "at_most_positional"@ && keys[2] == "at_most_total"@);
        assert(keys[3] == "expected_exact"@ && keys[4] == "kwarg_error_name"@ && keys[5] == "bad_arg"@);
        assert(keys[6] == "bad_arg_named"@ && keys[7] == "c_error"@ && keys[8] == "c_error_named"@);
        assert(keys[9] == "kwargs_not_supported_yet"@);
        lemma_one_more_entry(entries, "name"@);
        lemma_one_more_entry(entries, "at_most_positional"@);
        lemma_one_more_entry(entries, "at_most_total"@);
        lemma_one_more_entry(entries, "expected_exact"@);
        lemma_one_more_entry(entries, "kwarg_error_name"@);
        lemma_one_more_entry(entries, "bad_arg"@);
        lemma_one_more_entry(entries, "bad_arg_named"@);
        lemma_one_more_entry(entries, "c_error"@);
        lemma_one_more_entry(entries, "c_error_named"@);
        lemma_one_more_entry(entries, "kwargs_not_supported_yet"@);
        let o = options_after(entries)->Ok_0;
        assert(option_step(options_after(front)->Ok_0, entries.last()) == Ok::<StructOptions, Seq<char>>(o));
    }
}

/// The attributes of a signature say what its entries say: each option is set
/// exactly where its key occurs, and a text is that of the last entry with its
/// key. A signature has a name.
pub proof fn law_attributes_say_what_their_entries_say(entries: Seq<MetaEntry>)
    requires
        struct_attrs(entries) is Ok,
    ensures
        ({
            let a = struct_attrs(entries)->Ok_0;
            &&& is_last_text(entries, "name"@, a.name)
            &&& a.at_most_total <==> has_entry(entries, "at_most_total"@)
            &&& a.expected_exact <==> has_entry(entries, "expected_exact"@)
            &&& a.kwargs_not_supported_yet <==> has_entry(entries, "kwargs_not_supported_yet"@)
            &&& a.kwarg_error_name is Some <==> has_entry(entries, "kwarg_error_name"@)
            &&& a.kwarg_error_name is Some ==> is_last_text(entries, "kwarg_error_name"@, a.kwarg_error_name->Some_0)
            &&& a.bad_arg == Some(BadArgStyle::Positional) <==> has_entry(entries, "bad_arg"@)
            &&& a.bad_arg == Some(BadArgStyle::Named) <==> has_entry(entries, "bad_arg_named"@)
            &&& a.error_style is C <==> has_entry(entries, "c_error"@)
            &&& a.error_style is C ==> (a.error_style->C_0 is Positional <==> has_entry(entries, "at_most_positional"@))
            &&& !has_entry(entries, "c_error"@) ==> (a.error_style is NamedC <==> has_entry(entries, "c_error_named"@))
        }),
{
    lemma_options_match(entries);
}

/// Whether an entry can be read by itself: its key is known, and it has the
/// text that its key asks for.
pub open spec fn readable_option(e: MetaEntry) -> bool {
    let key = e.key@;
    ||| (key == "name"@ || key == "kwarg_error_name"@) && e.text is Ok
    ||| key == "at_most_positional"@
    ||| key == "at_most_total"@
    ||| key == "expected_exact"@
    ||| key == "bad_arg"@
    ||| key == "bad_arg_named"@
    ||| key == "c_error"@
    ||| key == "c_error_named"@
    ||| key == "kwargs_not_supported_yet"@
}

/// Whether two entries exclude each other.
pub open spec fn exclusive_options(a: MetaEntry, b: MetaEntry) -> bool {
    ||| (a.key@ == "bad_arg"@ || a.key@ == "bad_arg_named"@) && (b.key@ == "bad_arg"@ || b.key@ == "bad_arg_named"@)
    ||| (a.key@ == "c_error"@ || a.key@ == "c_error_named"@) && (b.key@ == "c_error"@ || b.key@ == "c_error_named"@)
}

#[verifier::rlimit(60)]
proof fn lemma_options_readable(entries: Seq<MetaEntry>)
    ensures
        options_after(entries) is Ok <==> {
            &&& forall|i: int| 0 <= i < entries.len() ==> readable_option(#[trigger] entries[i])
            &&& forall|i: int, j: int|
                0 <= i < j < entries.len() ==> !exclusive_options(#[trigger] entries[i], #[trigger] entries[j])
        },
    decreases entries.len(),
{
    if entries.len() > 0 {
        let front = entries.drop_last();
        let last = entries.len() - 1;
        lemma_options_readable(front);
        assert forall|i: int| 0 <= i < front.len() implies #[trigger] front[i] == entries[i] by {}
        assert(entries[last] == entries.last());
        lemma_option_keys_differ();
        let keys = seq![
            "name"@,
            "at_most_positional"@,
            "at_most_total"@,
            "expected_exact"@,
            "kwarg_error_name"@,
            "bad_arg"@,
            "bad_arg_named"@,
            "c_error"@,
            "c_error_named"@,
            "kwargs_not_supported_yet"@,
        ];
        assert(keys[0] == "name"@ && keys[1] == "at_most_positional"@ && keys[2] == "at_most_total"@);
        assert(keys[3] == "expected_exact"@ && keys[4] == "kwarg_error_name"@ && keys[5] == "bad_arg"@);
        assert(keys[6] == "bad_arg_named"@ && keys[7] == "c_error"@ && keys[8] == "c_error_named"@);
        assert(keys[9] == "kwargs_not_supported_yet"@);
        if options_after(front) is Ok {
            lemma_options_match(front);
            let o = options_after(front)->Ok_0;
            let e = entries.last();
            let twice = exists|i: int| 0 <= i < front.len() && exclusive_options(#[trigger] front[i], e);
            assert(option_step(o, e) is Ok <==> readable_option(e) && !twice) by {
                if twice {
                    let i = choose|i: int| 0 <= i < front.len() && exclusive_options(#[trigger] front[i], e);
                    let k = front[i].key@;
                    assert(front[i].key@ == k);
                    assert(has_entry(front, k));
                    assert(o.bad_arg is Some || o.plain_c || o.named_c);
                }
                if o.bad_arg == Some(BadArgStyle::Positional) && (e.key@ == "bad_arg"@ || e.key@ == "bad_arg_named"@) {
                    assert(has_entry(front, "bad_arg"@));
                    let i = choose|i: int| 0 <= i < front.len() && (#[trigger] front[i]).key@ == "bad_arg"@;
                    assert(exclusive_options(front[i], e));
                }
                if o.bad_arg == Some(BadArgStyle::Named) && (e.key@ == "bad_arg"@ || e.key@ == "bad_arg_named"@) {
                    assert(has_entry(front, "bad_arg_named"@));
                    let i = choose|i: int| 0 <= i < front.len() && (#[trigger] front[i]).key@ == "bad_arg_named"@;
                    assert(exclusive_options(front[i], e));
                }
                assert(o.bad_arg is Some ==> o.bad_arg == Some(BadArgStyle::Positional) || o.bad_arg == Some(
                    BadArgStyle::Named,
                ));
                if o.plain_c && (e.key@ == "c_error"@ || e.key@ == "c_error_named"@) {
                    assert(has_entry(front, "c_error"@));
                    let i = choose|i: int| 0 <= i < front.len() && (#[trigger] front[i]).key@ == "c_error"@;
                    assert(exclusive_options(front[i], e));
                }
                if o.named_c && (e.key@ == "c_error"@ || e.key@ == "c_error_named"@) {
                    assert(has_entry(front, "c_error_named"@));
                    let i = choose|i: int| 0 <= i < front.len() && (#[trigger] front[i]).key@ == "c_error_named"@;
                    assert(exclusive_options(front[i], e));
                }
            }
            if options_after(entries) is Ok {
                assert forall|i: int| 0 <= i < entries.len() implies readable_option(#[trigger] entries[i]) by {
                    if i < last {
                        assert(readable_option(front[i]));
                    }
                }
                assert forall|i: int, j: int| 0 <= i < j < entries.len() implies !exclusive_options(
                    #[trigger] entries[i],
                    #[trigger] entries[j],
                ) by {
                    if j == last {
                        assert(!exclusive_options(front[i], e));
                    } else {
                        assert(!exclusive_options(front[i], front[j]));
                    }
                }
            } else if !readable_option(e) {
                assert(!readable_option(entries[last]));
            } else {
                assert(twice);
                let i = choose|i: int| 0 <= i < front.len() && exclusive_options(#[trigger] front[i], e);
                assert(exclusive_options(entries[i], entries[last]));
            }
        } else {
            if forall|i: int| 0 <= i < front.len() ==> readable_option(#[trigger] front[i]) {
                let (i, j) = choose|i: int, j: int|
                    0 <= i < j < front.len() && exclusive_options(#[trigger] front[i], #[trigger] front[j]);
                assert(exclusive_options(entries[i], entries[j]));
            } else {
                let i = choose|i: int| 0 <= i < front.len() && !readable_option(#[trigger] front[i]);
                assert(!readable_option(entries[i]));
            }
        }
    }
}

/// Attributes can be read exactly where every entry can, no two exclude each
/// other, and there is a name.
pub proof fn law_attributes_are_read_where_entries_agree(entries: Seq<MetaEntry>)
    ensures
        struct_attrs(entries) is Ok <==> {
            &&& forall|i: int| 0 <= i < entries.len() ==> readable_option(#[trigger] entries[i])
            &&& forall|i: int, j: int|
                0 <= i < j < entries.len() ==> !exclusive_options(#[trigger] entries[i], #[trigger] entries[j])
            &&& has_entry(entries, "name"@)
        },
{
    lemma_options_readable(entries);
    if options_after(entries) is Ok {
        lemma_options_match(entries);
    }
}

proof fn lemma_field_keys_differ()
    ensures
        "pos_only"@ != "kw_only"@ && "pos_only"@ != "varargs"@ && "pos_only"@ != "varkwargs"@,
        "kw_only"@ != "varargs"@ && "kw_only"@ != "varkwargs"@ && "varargs"@ != "varkwargs"@,
        role_of_key("default"@) is None && role_of_key("static_string"@) is None,
        "default"@ != "static_string"@,
{
    reveal_strlit("pos_only");
    reveal_strlit("kw_only");
    reveal_strlit("varargs");
    reveal_strlit("varkwargs");
    reveal_strlit("default");
    reveal_strlit("static_string");
    assert("pos_only"@.len() == 8 && "kw_only"@.len() == 7 && "varargs"@.len() == 7 && "varkwargs"@.len() == 9);
    assert("default"@.len() == 7 && "static_string"@.len() == 13);
    assert("kw_only"@[0] == 'k' && "varargs"@[0] == 'v' && "default"@[0] == 'd');
}

/// The attributes of a field say what its entries say: its role is that of the
/// one key for a role, ordinary without one; its default is the type's own or
/// that of its entry; and its string is that of the last entry for one.
#[verifier::rlimit(40)]
pub proof fn law_field_attributes_say_what_their_entries_say(entries: Seq<MetaEntry>)
    requires
        field_attrs(entries) is Ok,
        entries.len() <= usize::MAX,
    ensures
        ({
            let a = field_attrs(entries)->Ok_0;
            &&& a.kind is PosOnly <==> has_entry(entries, "pos_only"@)
            &&& a.kind is KwOnly <==> has_entry(entries, "kw_only"@)
            &&& a.kind is Varargs <==> has_entry(entries, "varargs"@)
            &&& a.kind is Varkwargs <==> has_entry(entries, "varkwargs"@)
            &&& a.role_given <==> !(a.kind is PosOrKeyword)
            &&& a.default is Some <==> has_entry(entries, "default"@)
            &&& match a.default {
                Some(DefaultSource::Entry(i)) => {
                    &&& i < entries.len()
                    &&& entries[i as int].key@ == "default"@
                    &&& entries[i as int].assigned
                },
                Some(DefaultSource::TypeDefault) => exists|i: int|
                    0 <= i < entries.len() && (#[trigger] entries[i]).key@ == "default"@ && !entries[i].assigned,
                None => true,
            }
            &&& a.static_string is Some <==> has_entry(entries, "static_string"@)
            &&& a.static_string is Some ==> is_last_text(entries, "static_string"@, a.static_string->Some_0)
        }),
    decreases entries.len(),
{
    lemma_field_keys_differ();
    if entries.len() > 0 {
        let front = entries.drop_last();
        let last = entries.len() - 1;
        law_field_attributes_say_what_their_entries_say(front);
        assert forall|i: int| 0 <= i < front.len() implies #[trigger] front[i] == entries[i] by {}
        assert(entries[last] == entries.last());
        lemma_one_more_entry(entries, "pos_only"@);
        lemma_one_more_entry(entries, "kw_only"@);
        lemma_one_more_entry(entries, "varargs"@);
        lemma_one_more_entry(entries, "varkwargs"@);
        lemma_one_more_entry(entries, "default"@);
        lemma_one_more_entry(entries, "static_string"@);
        let before = field_attrs(front)->Ok_0;
        let a = field_attrs(entries)->Ok_0;
        assert(field_attr_step(before, entries.last(), last) == Ok::<FieldAttrs, Seq<char>>(a));
        if a.default == Some(DefaultSource::TypeDefault) {
            if before.default == Some(DefaultSource::TypeDefault) {
                let i = choose|i: int|
                    0 <= i < front.len() && (#[trigger] front[i]).key@ == "default"@ && !front[i].assigned;
                assert(entries[i].key@ == "default"@ && !entries[i].assigned);
            } else {
                assert(entries[last].key@ == "default"@ && !entries[last].assigned);
            }
        }
    }
}

proof fn lemma_pascal_word(front: Seq<char>, word: Seq<char>)
    requires
        front.len() == 0 || front.last() == '_',
        word.len() > 0,
        !word.contains('_'),
    ensures
        ascii_pascal(front + word) == ascii_pascal(front) + (seq![ascii_upper(word[0])] + word.skip(1)),
    decreases word.len(),
{
    let whole = front + word;
    assert(word[word.len() - 1] != '_');
    if word.len() == 1 {
        assert(whole.drop_last() =~= front);
        assert(seq![ascii_upper(word[0])] + word.skip(1) =~= seq![ascii_upper(word[0])]);
        assert(ascii_pascal(front).push(ascii_upper(word[0])) =~= ascii_pascal(front) + seq![ascii_upper(word[0])]);
    } else {
        let shorter = word.drop_last();
        assert forall|i: int| 0 <= i < shorter.len() implies shorter[i] != '_' by {
            assert(word.contains(word[i]));
        }
        lemma_pascal_word(front, shorter);
        assert(whole.drop_last() =~= front + shorter);
        assert(whole[whole.len() - 2] == word[word.len() - 2]);
        assert(word.contains(word[word.len() - 2]));
        assert((ascii_pascal(front) + (seq![ascii_upper(shorter[0])] + shorter.skip(1))).push(word.last())
            =~= ascii_pascal(front) + (seq![ascii_upper(word[0])] + word.skip(1)));
    }
}

/// Each word of an ASCII snake-case name is capitalized and put behind the ones
/// before it; the underscores go.
pub proof fn law_words_are_capitalized(front: Seq<char>, word: Seq<char>)
    requires
        word.len() > 0,
        !word.contains('_'),
    ensures
        ascii_pascal(word) == seq![ascii_upper(word[0])] + word.skip(1),
        ascii_pascal(front.push('_') + word) == ascii_pascal(front) + (seq![ascii_upper(word[0])] + word.skip(1)),
{
    lemma_pascal_word(Seq::empty(), word);
    assert(Seq::<char>::empty() + word =~= word);
    assert(ascii_pascal(Seq::<char>::empty()) + (seq![ascii_upper(word[0])] + word.skip(1)) =~= seq![
        ascii_upper(word[0]),
    ] + word.skip(1));
    lemma_pascal_word(front.push('_'), word);
    assert(front.push('_').drop_last() =~= front);
    assert(ascii_pascal(front.push('_')) == ascii_pascal(front));
}

/// A misplaced field is refused for the rule that it breaks.
pub proof fn law_misplaced_fields_say_why(fields: Seq<FieldDecl>, i: int, j: int)
    requires
        0 <= i < j < fields.len(),
    ensures
        fields[i].kind is Varkwargs ==> field_error(fields, j) == Some(
            "no fields may appear after a `#[from_args(varkwargs)]` field"@,
        ),
        !declared_before(fields, j, FieldKind::Varkwargs) && fields[j].kind is PosOnly && !(fields[i].kind is PosOnly)
            ==> field_error(fields, j) == Some(
            "positional-only fields must come before positional-or-keyword, varargs, and keyword-only fields"@,
        ),
        !declared_before(fields, j, FieldKind::Varkwargs) && fields[j].kind is PosOrKeyword && fields[i].kind is KwOnly
            && !declared_before(fields, j, FieldKind::Varargs) ==> field_error(fields, j) == Some(
            "positional-or-keyword fields cannot appear after keyword-only fields"@,
        ),
        !declared_before(fields, j, FieldKind::Varkwargs) && fields[j].kind is Varargs && fields[i].kind is Varargs
            ==> field_error(fields, j) == Some("only one `#[from_args(varargs)]` field is allowed"@),
{
    assert(fields[i].kind == FieldKind::Varkwargs ==> declared_before(fields, j, FieldKind::Varkwargs));
    assert(fields[i].kind == FieldKind::Varargs ==> declared_before(fields, j, FieldKind::Varargs));
    assert(role(fields, i) == FieldKind::KwOnly ==> role_before(fields, j, FieldKind::KwOnly));
    assert(role(fields, i) == FieldKind::PosOrKeyword ==> role_before(fields, j, FieldKind::PosOrKeyword));
    assert(role(fields, i) == fields[i].kind || role(fields, i) is KwOnly);
}

/// Each entry of a signature's attributes is refused for its own reason: an
/// unknown key, a missing text, or an option that another one excludes.
pub proof fn law_refused_options_say_why(o: StructOptions, e: MetaEntry)
    requires
        option_step(o, e) is Err,
    ensures
        (e.key@ == "name"@ || e.key@ == "kwarg_error_name"@) ==> e.text is Err && option_step(o, e)->Err_0
            == e.text->Err_0@,
        e.key@ == "bad_arg"@ || e.key@ == "bad_arg_named"@ ==> o.bad_arg is Some && option_step(o, e)->Err_0
            == "`bad_arg` and `bad_arg_named` are mutually exclusive"@,
        e.key@ == "c_error"@ || e.key@ == "c_error_named"@ ==> (o.plain_c || o.named_c) && option_step(o, e)->Err_0
            == "`c_error` and `c_error_named` are mutually exclusive"@,
{
    lemma_option_keys_differ();
    let keys = seq![
        "name"@,
        "at_most_positional"@,
        "at_most_total"@,
        "expected_exact"@,
        "kwarg_error_name"@,
        "bad_arg"@,
        "bad_arg_named"@,
        "c_error"@,
        "c_error_named"@,
        "kwargs_not_supported_yet"@,
    ];
    assert(keys[0] == "name"@ && keys[1] == "at_most_positional"@ && keys[2] == "at_most_total"@);
    assert(keys[3] == "expected_exact"@ && keys[4] == "kwarg_error_name"@ && keys[5] == "bad_arg"@);
    assert(keys[6] == "bad_arg_named"@ && keys[7] == "c_error"@ && keys[8] == "c_error_named"@);
}

/// Whether an entry of a field can be read by itself: its key is known, and it
/// has what its key asks for.
pub open spec fn readable_field_entry(e: MetaEntry) -> bool {
    ||| role_of_key(e.key@) is Some
    ||| e.key@ == "default"@ && (e.assigned ==> e.expr_error is None)
    ||| e.key@ == "static_string"@ && e.text is Ok
}

/// Whether two entries of a field exclude each other.
pub open spec fn exclusive_field_entries(a: MetaEntry, b: MetaEntry) -> bool {
    ||| role_of_key(a.key@) is Some && role_of_key(b.key@) is Some
    ||| a.key@ == "default"@ && b.key@ == "default"@
}

#[verifier::rlimit(40)]
proof fn lemma_field_attrs_readable(entries: Seq<MetaEntry>)
    requires
        entries.len() <= usize::MAX,
    ensures
        field_attrs(entries) is Ok <==> {
            &&& forall|i: int| 0 <= i < entries.len() ==> readable_field_entry(#[trigger] entries[i])
            &&& forall|i: int, j: int|
                0 <= i < j < entries.len() ==> !exclusive_field_entries(#[trigger] entries[i], #[trigger] entries[j])
        },
    decreases entries.len(),
{
    lemma_field_keys_differ();
    if entries.len() > 0 {
        let front = entries.drop_last();
        let last = entries.len() - 1;
        lemma_field_attrs_readable(front);
        assert forall|i: int| 0 <= i < front.len() implies #[trigger] front[i] == entries[i] by {}
        assert(entries[last] == entries.last());
        let e = entries.last();
        if field_attrs(front) is Ok {
            law_field_attributes_say_what_their_entries_say(front);
            let a = field_attrs(front)->Ok_0;
            let twice = exists|i: int| 0 <= i < front.len() && exclusive_field_entries(#[trigger] front[i], e);
            assert(field_attr_step(a, e, last) is Ok <==> readable_field_entry(e) && !twice) by {
                if twice {
                    let i = choose|i: int| 0 <= i < front.len() && exclusive_field_entries(#[trigger] front[i], e);
                    assert(has_entry(front, front[i].key@));
                    assert(a.role_given || a.default is Some);
                }
                if a.role_given && role_of_key(e.key@) is Some {
                    let k = if a.kind is PosOnly {
                        "pos_only"@
                    } else if a.kind is KwOnly {
                        "kw_only"@
                    } else if a.kind is Varargs {
                        "varargs"@
                    } else {
                        "varkwargs"@
                    };
                    assert(has_entry(front, k));
                    let i = choose|i: int| 0 <= i < front.len() && (#[trigger] front[i]).key@ == k;
                    assert(exclusive_field_entries(front[i], e));
                }
                if a.default is Some && e.key@ == "default"@ {
                    assert(has_entry(front, "default"@));
                    let i = choose|i: int| 0 <= i < front.len() && (#[trigger] front[i]).key@ == "default"@;
                    assert(exclusive_field_entries(front[i], e));
                }
            }
            if field_attrs(entries) is Ok {
                assert forall|i: int| 0 <= i < entries.len() implies readable_field_entry(#[trigger] entries[i]) by {
                    if i < last {
                        assert(readable_field_entry(front[i]));
                    }
                }
                assert forall|i: int, j: int| 0 <= i < j < entries.len() implies !exclusive_field_entries(
                    #[trigger] entries[i],
                    #[trigger] entries[j],
                ) by {
                    if j == last {
                        assert(!exclusive_field_entries(front[i], e));
                    } else {
                        assert(!exclusive_field_entries(front[i], front[j]));
                    }
                }
            } else if !readable_field_entry(e) {
                assert(!readable_field_entry(entries[last]));
            } else {
                assert(twice);
                let i = choose|i: int| 0 <= i < front.len() && exclusive_field_entries(#[trigger] front[i], e);
                assert(exclusive_field_entries(entries[i], entries[last]));
            }
        } else {
            if forall|i: int| 0 <= i < front.len() ==> readable_field_entry(#[trigger] front[i]) {
                let (i, j) = choose|i: int, j: int|
                    0 <= i < j < front.len() && exclusive_field_entries(#[trigger] front[i], #[trigger] front[j]);
                assert(exclusive_field_entries(entries[i], entries[j]));
            } else {
                let i = choose|i: int| 0 <= i < front.len() && !readable_field_entry(#[trigger] front[i]);
                assert(!readable_field_entry(entries[i]));
            }
        }
    }
}

/// The attributes of a field are read exactly where every entry can be and no
/// two exclude each other.
pub proof fn law_field_attributes_are_read_where_entries_agree(entries: Seq<MetaEntry>)
    requires
        entries.len() <= usize::MAX,
    ensures
        field_attrs(entries) is Ok <==> {
            &&& forall|i: int| 0 <= i < entries.len() ==> readable_field_entry(#[trigger] entries[i])
            &&& forall|i: int, j: int|
                0 <= i < j < entries.len() ==> !exclusive_field_entries(#[trigger] entries[i], #[trigger] entries[j])
        },
{
    lemma_field_attrs_readable(entries);
}

proof fn lemma_unicode_pascal_word(front: Seq<char>, word: Seq<char>)
    requires
        front.len() == 0 || front.last() == '_',
        word.len() > 0,
        !word.contains('_'),
    ensures
        pascal(front + word) == pascal(front) + (unicode_upper_form(word[0]) + word.skip(1)),
    decreases word.len(),
{
    let whole = front + word;
    assert(word[word.len() - 1] != '_');
    if word.len() == 1 {
        assert(whole.drop_last() =~= front);
        assert(unicode_upper_form(word[0]) + word.skip(1) =~= unicode_upper_form(word[0]));
    } else {
        let shorter = word.drop_last();
        assert forall|i: int| 0 <= i < shorter.len() implies shorter[i] != '_' by {
            assert(word.contains(word[i]));
        }
        lemma_unicode_pascal_word(front, shorter);
        assert(whole.drop_last() =~= front + shorter);
        assert(whole[whole.len() - 2] == word[word.len() - 2]);
        assert(word.contains(word[word.len() - 2]));
        assert((pascal(front) + (unicode_upper_form(shorter[0]) + shorter.skip(1))).push(word.last()) =~= pascal(front) + (
        unicode_upper_form(word[0]) + word.skip(1)));
    }
}

/// What holds of ASCII names holds of all: each word is capitalized and put
/// behind the ones before it, and the underscores go.
pub proof fn law_all_words_are_capitalized(front: Seq<char>, word: Seq<char>)
    requires
        word.len() > 0,
        !word.contains('_'),
    ensures
        pascal(word) == unicode_upper_form(word[0]) + word.skip(1),
        pascal(front.push('_') + word) == pascal(front) + (unicode_upper_form(word[0]) + word.skip(1)),
{
    lemma_unicode_pascal_word(Seq::empty(), word);
    assert(Seq::<char>::empty() + word =~= word);
    assert(pascal(Seq::<char>::empty()) + (unicode_upper_form(word[0]) + word.skip(1)) =~= unicode_upper_form(word[0])
        + word.skip(1));
    lemma_unicode_pascal_word(front.push('_'), word);
    assert(front.push('_').drop_last() =~= front);
    assert(pascal(front.push('_')) == pascal(front));
}

} // verus!
