//! Exception types, their place in Python's hierarchy, and the mapping between
//! Python exceptions and the types that sandboxed code sees.

use crate::text::same;
use vstd::prelude::*;

verus! {

/// The exception types sandboxed code can raise.
#[derive(Clone, Copy, Debug, PartialEq, Eq, Structural)]
pub enum ExcType {
    Exception,
    BaseException,
    SystemExit,
    KeyboardInterrupt,
    ArithmeticError,
    OverflowError,
    ZeroDivisionError,
    LookupError,
    IndexError,
    KeyError,
    RuntimeError,
    NotImplementedError,
    RecursionError,
    AssertionError,
    AttributeError,
    FrozenInstanceError,
    MemoryError,
    NameError,
    UnboundLocalError,
    StopIteration,
    SyntaxError,
    TimeoutError,
    TypeError,
    ValueError,
    UnicodeDecodeError,
    UnicodeEncodeError,
    JsonDecodeError,
    ImportError,
    ModuleNotFoundError,
    OSError,
    FileNotFoundError,
    FileExistsError,
    IsADirectoryError,
    NotADirectoryError,
    PermissionError,
    UnsupportedOperation,
    RePatternError,
}

impl ExcType {
    /// The Python name of the type.
    pub open spec fn name(self) -> Seq<char> {
        match self {
            ExcType::Exception => "Exception"@,
            ExcType::BaseException => "BaseException"@,
            ExcType::SystemExit => "SystemExit"@,
            ExcType::KeyboardInterrupt => "KeyboardInterrupt"@,
            ExcType::ArithmeticError => "ArithmeticError"@,
            ExcType::OverflowError => "OverflowError"@,
            ExcType::ZeroDivisionError => "ZeroDivisionError"@,
            ExcType::LookupError => "LookupError"@,
            ExcType::IndexError => "IndexError"@,
            ExcType::KeyError => "KeyError"@,
            ExcType::RuntimeError => "RuntimeError"@,
            ExcType::NotImplementedError => "NotImplementedError"@,
            ExcType::RecursionError => "RecursionError"@,
            ExcType::AssertionError => "AssertionError"@,
            ExcType::AttributeError => "AttributeError"@,
            ExcType::FrozenInstanceError => "FrozenInstanceError"@,
            ExcType::MemoryError => "MemoryError"@,
            ExcType::NameError => "NameError"@,
            ExcType::UnboundLocalError => "UnboundLocalError"@,
            ExcType::StopIteration => "StopIteration"@,
            ExcType::SyntaxError => "SyntaxError"@,
            ExcType::TimeoutError => "TimeoutError"@,
            ExcType::TypeError => "TypeError"@,
            ExcType::ValueError => "ValueError"@,
            ExcType::UnicodeDecodeError => "UnicodeDecodeError"@,
            ExcType::UnicodeEncodeError => "UnicodeEncodeError"@,
            ExcType::JsonDecodeError => "JSONDecodeError"@,
            ExcType::ImportError => "ImportError"@,
            ExcType::ModuleNotFoundError => "ModuleNotFoundError"@,
            ExcType::OSError => "OSError"@,
            ExcType::FileNotFoundError => "FileNotFoundError"@,
            ExcType::FileExistsError => "FileExistsError"@,
            ExcType::IsADirectoryError => "IsADirectoryError"@,
            ExcType::NotADirectoryError => "NotADirectoryError"@,
            ExcType::PermissionError => "PermissionError"@,
            ExcType::UnsupportedOperation => "UnsupportedOperation"@,
            ExcType::RePatternError => "PatternError"@,
        }
    }

    /// Whether Python's `isinstance` holds of an exception of this type and `class`.
    pub open spec fn is_subclass_of(self, class: ExcType) -> bool {
        self == class || match class {
            ExcType::BaseException => true,
            ExcType::Exception => !(self is BaseException || self is SystemExit || self is KeyboardInterrupt),
            ExcType::ArithmeticError => self is OverflowError || self is ZeroDivisionError,
            ExcType::LookupError => self is IndexError || self is KeyError,
            ExcType::RuntimeError => self is NotImplementedError || self is RecursionError,
            ExcType::AttributeError => self is FrozenInstanceError,
            ExcType::NameError => self is UnboundLocalError,
            ExcType::ImportError => self is ModuleNotFoundError,
            ExcType::ValueError => self is UnicodeDecodeError || self is UnicodeEncodeError || self is JsonDecodeError || self is UnsupportedOperation,
            ExcType::OSError => self is FileNotFoundError || self is FileExistsError || self is IsADirectoryError || self is NotADirectoryError || self is PermissionError || self is TimeoutError || self is UnsupportedOperation,
            _ => false,
        }
    }

    /// The Python name of the type.
    pub fn to_text(self) -> (r: String)
        ensures
            r@ == self.name(),
    {
        match self {
            ExcType::Exception => "Exception".to_owned(),
            ExcType::BaseException => "BaseException".to_owned(),
            ExcType::SystemExit => "SystemExit".to_owned(),
            ExcType::KeyboardInterrupt => "KeyboardInterrupt".to_owned(),
            ExcType::ArithmeticError => "ArithmeticError".to_owned(),
            ExcType::OverflowError => "OverflowError".to_owned(),
            ExcType::ZeroDivisionError => "ZeroDivisionError".to_owned(),
            ExcType::LookupError => "LookupError".to_owned(),
            ExcType::IndexError => "IndexError".to_owned(),
            ExcType::KeyError => "KeyError".to_owned(),
            ExcType::RuntimeError => "RuntimeError".to_owned(),
            ExcType::NotImplementedError => "NotImplementedError".to_owned(),
            ExcType::RecursionError => "RecursionError".to_owned(),
            ExcType::AssertionError => "AssertionError".to_owned(),
            ExcType::AttributeError => "AttributeError".to_owned(),
            ExcType::FrozenInstanceError => "FrozenInstanceError".to_owned(),
            ExcType::MemoryError => "MemoryError".to_owned(),
            ExcType::NameError => "NameError".to_owned(),
            ExcType::UnboundLocalError => "UnboundLocalError".to_owned(),
            ExcType::StopIteration => "StopIteration".to_owned(),
            ExcType::SyntaxError => "SyntaxError".to_owned(),
            ExcType::TimeoutError => "TimeoutError".to_owned(),
            ExcType::TypeError => "TypeError".to_owned(),
            ExcType::ValueError => "ValueError".to_owned(),
            ExcType::UnicodeDecodeError => "UnicodeDecodeError".to_owned(),
            ExcType::UnicodeEncodeError => "UnicodeEncodeError".to_owned(),
            ExcType::JsonDecodeError => "JSONDecodeError".to_owned(),
            ExcType::ImportError => "ImportError".to_owned(),
            ExcType::ModuleNotFoundError => "ModuleNotFoundError".to_owned(),
            ExcType::OSError => "OSError".to_owned(),
            ExcType::FileNotFoundError => "FileNotFoundError".to_owned(),
            ExcType::FileExistsError => "FileExistsError".to_owned(),
            ExcType::IsADirectoryError => "IsADirectoryError".to_owned(),
            ExcType::NotADirectoryError => "NotADirectoryError".to_owned(),
            ExcType::PermissionError => "PermissionError".to_owned(),
            ExcType::UnsupportedOperation => "UnsupportedOperation".to_owned(),
            ExcType::RePatternError => "PatternError".to_owned(),
        }
    }

    /// Every exception type.
    pub fn all() -> (r: Vec<ExcType>)
        ensures
            forall|t: ExcType| r@.contains(t),
    {
        let r: Vec<ExcType> = vec![
            ExcType::Exception,
            ExcType::BaseException,
            ExcType::SystemExit,
            ExcType::KeyboardInterrupt,
            ExcType::ArithmeticError,
            ExcType::OverflowError,
            ExcType::ZeroDivisionError,
            ExcType::LookupError,
            ExcType::IndexError,
            ExcType::KeyError,
            ExcType::RuntimeError,
            ExcType::NotImplementedError,
            ExcType::RecursionError,
            ExcType::AssertionError,
            ExcType::AttributeError,
            ExcType::FrozenInstanceError,
            ExcType::MemoryError,
            ExcType::NameError,
            ExcType::UnboundLocalError,
            ExcType::StopIteration,
            ExcType::SyntaxError,
            ExcType::TimeoutError,
            ExcType::TypeError,
            ExcType::ValueError,
            ExcType::UnicodeDecodeError,
            ExcType::UnicodeEncodeError,
            ExcType::JsonDecodeError,
            ExcType::ImportError,
            ExcType::ModuleNotFoundError,
            ExcType::OSError,
            ExcType::FileNotFoundError,
            ExcType::FileExistsError,
            ExcType::IsADirectoryError,
            ExcType::NotADirectoryError,
            ExcType::PermissionError,
            ExcType::UnsupportedOperation,
            ExcType::RePatternError,
        ];
        proof {
            assert forall|t: ExcType| r@.contains(t) by {
                match t {
                    ExcType::Exception => assert(r@[0] == t),
                    ExcType::BaseException => assert(r@[1] == t),
                    ExcType::SystemExit => assert(r@[2] == t),
                    ExcType::KeyboardInterrupt => assert(r@[3] == t),
                    ExcType::ArithmeticError => assert(r@[4] == t),
                    ExcType::OverflowError => assert(r@[5] == t),
                    ExcType::ZeroDivisionError => assert(r@[6] == t),
                    ExcType::LookupError => assert(r@[7] == t),
                    ExcType::IndexError => assert(r@[8] == t),
                    ExcType::KeyError => assert(r@[9] == t),
                    ExcType::RuntimeError => assert(r@[10] == t),
                    ExcType::NotImplementedError => assert(r@[11] == t),
                    ExcType::RecursionError => assert(r@[12] == t),
                    ExcType::AssertionError => assert(r@[13] == t),
                    ExcType::AttributeError => assert(r@[14] == t),
                    ExcType::FrozenInstanceError => assert(r@[15] == t),
                    ExcType::MemoryError => assert(r@[16] == t),
                    ExcType::NameError => assert(r@[17] == t),
                    ExcType::UnboundLocalError => assert(r@[18] == t),
                    ExcType::StopIteration => assert(r@[19] == t),
                    ExcType::SyntaxError => assert(r@[20] == t),
                    ExcType::TimeoutError => assert(r@[21] == t),
                    ExcType::TypeError => assert(r@[22] == t),
                    ExcType::ValueError => assert(r@[23] == t),
                    ExcType::UnicodeDecodeError => assert(r@[24] == t),
                    ExcType::UnicodeEncodeError => assert(r@[25] == t),
                    ExcType::JsonDecodeError => assert(r@[26] == t),
                    ExcType::ImportError => assert(r@[27] == t),
                    ExcType::ModuleNotFoundError => assert(r@[28] == t),
                    ExcType::OSError => assert(r@[29] == t),
                    ExcType::FileNotFoundError => assert(r@[30] == t),
                    ExcType::FileExistsError => assert(r@[31] == t),
                    ExcType::IsADirectoryError => assert(r@[32] == t),
                    ExcType::NotADirectoryError => assert(r@[33] == t),
                    ExcType::PermissionError => assert(r@[34] == t),
                    ExcType::UnsupportedOperation => assert(r@[35] == t),
                    ExcType::RePatternError => assert(r@[36] == t),
                }
            }
        }
        r
    }

    /// The type with a Python name.
    pub fn parse(name: &str) -> (r: Option<ExcType>)
        ensures
            r is Some ==> r->Some_0.name() == name@,
            r is None ==> forall|t: ExcType| (#[trigger] t.name()) != name@,
    {
        let all: Vec<ExcType> = ExcType::all();
        let mut i: usize = 0;
        while i < all.len()
            invariant
                i <= all@.len(),
                forall|t: ExcType| all@.contains(t),
                forall|j: int| 0 <= j < i ==> (#[trigger] all@[j]).name() != name@,
            decreases all@.len() - i,
        {
            if same(all[i].to_text().as_str(), name) {
                return Some(all[i]);
            }
            i = i + 1;
        }
        proof {
            assert forall|t: ExcType| (#[trigger] t.name()) != name@ by {
                assert(all@.contains(t));
            }
        }
        None
    }
}

/// The classes that an exception is an instance of.
pub open spec fn classes_of(t: ExcType) -> Set<ExcType> {
    Set::new(|class: ExcType| t.is_subclass_of(class))
}

/// The first of two candidates that is among the classes, else `fallback`.
pub open spec fn pick(classes: Set<ExcType>, first: ExcType, second: ExcType, fallback: ExcType) -> ExcType {
    if classes.contains(first) {
        first
    } else if classes.contains(second) {
        second
    } else {
        fallback
    }
}

/// The type that stands for a Python exception with these classes: families
/// are told apart first, then their members.
pub open spec fn classify(classes: Set<ExcType>) -> ExcType {
    if !classes.contains(ExcType::Exception) {
        pick(classes, ExcType::SystemExit, ExcType::KeyboardInterrupt, ExcType::BaseException)
    } else if classes.contains(ExcType::TypeError) {
        ExcType::TypeError
    } else if classes.contains(ExcType::ValueError) {
        pick(
            classes,
            ExcType::JsonDecodeError,
            ExcType::UnicodeDecodeError,
            pick(classes, ExcType::UnicodeEncodeError, ExcType::UnsupportedOperation, ExcType::ValueError),
        )
    } else if classes.contains(ExcType::AssertionError) {
        ExcType::AssertionError
    } else if classes.contains(ExcType::SyntaxError) {
        ExcType::SyntaxError
    } else if classes.contains(ExcType::LookupError) {
        pick(classes, ExcType::KeyError, ExcType::IndexError, ExcType::LookupError)
    } else if classes.contains(ExcType::ArithmeticError) {
        pick(classes, ExcType::ZeroDivisionError, ExcType::OverflowError, ExcType::ArithmeticError)
    } else if classes.contains(ExcType::RuntimeError) {
        pick(classes, ExcType::NotImplementedError, ExcType::RecursionError, ExcType::RuntimeError)
    } else if classes.contains(ExcType::AttributeError) {
        pick(classes, ExcType::FrozenInstanceError, ExcType::FrozenInstanceError, ExcType::AttributeError)
    } else if classes.contains(ExcType::NameError) {
        pick(classes, ExcType::UnboundLocalError, ExcType::UnboundLocalError, ExcType::NameError)
    } else if classes.contains(ExcType::OSError) {
        pick(
            classes,
            ExcType::FileNotFoundError,
            ExcType::FileExistsError,
            pick(
                classes,
                ExcType::IsADirectoryError,
                ExcType::NotADirectoryError,
                pick(classes, ExcType::PermissionError, ExcType::TimeoutError, ExcType::OSError),
            ),
        )
    } else {
        pick(classes, ExcType::TimeoutError, ExcType::MemoryError, ExcType::Exception)
    }
}

fn is_instance(classes: &Vec<ExcType>, t: ExcType) -> (r: bool)
    ensures
        r == classes@.to_set().contains(t),
{
    let mut i: usize = 0;
    while i < classes.len()
        invariant
            i <= classes@.len(),
            forall|j: int| 0 <= j < i ==> classes@[j] != t,
        decreases classes@.len() - i,
    {
        if classes[i] == t {
            proof {
                assert(classes@.contains(t));
            }
            return true;
        }
        i = i + 1;
    }
    proof {
        assert(!classes@.contains(t));
    }
    false
}

/// Maps a Python exception to a type, given the known classes that it is an
/// instance of.
pub fn py_err_to_exc_type(classes: &Vec<ExcType>) -> (r: ExcType)
    ensures
        r == classify(classes@.to_set()),
{
    if is_instance(classes, ExcType::Exception) {
        if is_instance(classes, ExcType::TypeError) {
            ExcType::TypeError
        } else if is_instance(classes, ExcType::ValueError) {
            if is_instance(classes, ExcType::JsonDecodeError) {
                ExcType::JsonDecodeError
            } else if is_instance(classes, ExcType::UnicodeDecodeError) {
                ExcType::UnicodeDecodeError
            } else if is_instance(classes, ExcType::UnicodeEncodeError) {
                ExcType::UnicodeEncodeError
            } else if is_instance(classes, ExcType::UnsupportedOperation) {
                ExcType::UnsupportedOperation
            } else {
                ExcType::ValueError
            }
        } else if is_instance(classes, ExcType::AssertionError) {
            ExcType::AssertionError
        } else if is_instance(classes, ExcType::SyntaxError) {
            ExcType::SyntaxError
        } else if is_instance(classes, ExcType::LookupError) {
            if is_instance(classes, ExcType::KeyError) {
                ExcType::KeyError
            } else if is_instance(classes, ExcType::IndexError) {
                ExcType::IndexError
            } else {
                ExcType::LookupError
            }
        } else if is_instance(classes, ExcType::ArithmeticError) {
            if is_instance(classes, ExcType::ZeroDivisionError) {
                ExcType::ZeroDivisionError
            } else if is_instance(classes, ExcType::OverflowError) {
                ExcType::OverflowError
            } else {
                ExcType::ArithmeticError
            }
        } else if is_instance(classes, ExcType::RuntimeError) {
            if is_instance(classes, ExcType::NotImplementedError) {
                ExcType::NotImplementedError
            } else if is_instance(classes, ExcType::RecursionError) {
                ExcType::RecursionError
            } else {
                ExcType::RuntimeError
            }
        } else if is_instance(classes, ExcType::AttributeError) {
            if is_instance(classes, ExcType::FrozenInstanceError) {
                ExcType::FrozenInstanceError
            } else {
                ExcType::AttributeError
            }
        } else if is_instance(classes, ExcType::NameError) {
            if is_instance(classes, ExcType::UnboundLocalError) {
                ExcType::UnboundLocalError
            } else {
                ExcType::NameError
            }
        } else if is_instance(classes, ExcType::OSError) {
            if is_instance(classes, ExcType::FileNotFoundError) {
                ExcType::FileNotFoundError
            } else if is_instance(classes, ExcType::FileExistsError) {
                ExcType::FileExistsError
            } else if is_instance(classes, ExcType::IsADirectoryError) {
                ExcType::IsADirectoryError
            } else if is_instance(classes, ExcType::NotADirectoryError) {
                ExcType::NotADirectoryError
            } else if is_instance(classes, ExcType::PermissionError) {
                ExcType::PermissionError
            } else if is_instance(classes, ExcType::TimeoutError) {
                ExcType::TimeoutError
            } else {
                ExcType::OSError
            }
        } else if is_instance(classes, ExcType::TimeoutError) {
            ExcType::TimeoutError
        } else if is_instance(classes, ExcType::MemoryError) {
            ExcType::MemoryError
        } else {
            ExcType::Exception
        }
    } else if is_instance(classes, ExcType::SystemExit) {
        ExcType::SystemExit
    } else if is_instance(classes, ExcType::KeyboardInterrupt) {
        ExcType::KeyboardInterrupt
    } else {
        ExcType::BaseException
    }
}

/// How a sandbox exception is raised in Python.
#[derive(Clone, Copy, Debug, PartialEq, Eq, Structural)]
pub struct RaisePlan {
    /// The class to raise.
    pub class: ExcType,
    /// Whether the class is built from structured fields instead of a message.
    pub structured: bool,
    /// The class to raise with the message when `class` cannot be built.
    pub fallback: ExcType,
}

/// How a sandbox exception is raised in Python; `has_unicode_data` when it
/// carries the structured fields of a codec error.
pub open spec fn raise_plan(t: ExcType, has_unicode_data: bool) -> RaisePlan {
    match t {
        ExcType::UnicodeDecodeError | ExcType::UnicodeEncodeError => if has_unicode_data {
            RaisePlan { class: t, structured: true, fallback: ExcType::ValueError }
        } else {
            RaisePlan { class: ExcType::ValueError, structured: false, fallback: ExcType::ValueError }
        },
        ExcType::FrozenInstanceError => RaisePlan { class: t, structured: false, fallback: ExcType::AttributeError },
        ExcType::JsonDecodeError => RaisePlan { class: t, structured: false, fallback: ExcType::ValueError },
        ExcType::UnsupportedOperation => RaisePlan { class: t, structured: false, fallback: ExcType::OSError },
        ExcType::RePatternError => RaisePlan { class: t, structured: false, fallback: ExcType::RuntimeError },
        _ => RaisePlan { class: t, structured: false, fallback: t },
    }
}

/// Decides how a sandbox exception is raised in Python. Classes of the
/// standard library that may fail to import have a built-in to fall back on;
/// a codec error without its structured fields is a plain `ValueError`.
pub fn plan_raise(t: ExcType, has_unicode_data: bool) -> (r: RaisePlan)
    ensures
        r == raise_plan(t, has_unicode_data),
{
    match t {
        ExcType::UnicodeDecodeError | ExcType::UnicodeEncodeError => {
            if has_unicode_data {
                RaisePlan { class: t, structured: true, fallback: ExcType::ValueError }
            } else {
                RaisePlan { class: ExcType::ValueError, structured: false, fallback: ExcType::ValueError }
            }
        },
        ExcType::FrozenInstanceError => RaisePlan { class: t, structured: false, fallback: ExcType::AttributeError },
        ExcType::JsonDecodeError => RaisePlan { class: t, structured: false, fallback: ExcType::ValueError },
        ExcType::UnsupportedOperation => RaisePlan { class: t, structured: false, fallback: ExcType::OSError },
        ExcType::RePatternError => RaisePlan { class: t, structured: false, fallback: ExcType::RuntimeError },
        _ => RaisePlan { class: t, structured: false, fallback: t },
    }
}

/// Types that Python exceptions are not mapped back to: no exception is
/// classified as one of them.
pub open spec fn merged(t: ExcType) -> bool {
    t is ImportError || t is ModuleNotFoundError || t is StopIteration || t is RePatternError
}

/// An exception of a type that reaches Python and comes back has its type
/// still, except where several types share one on the way back.
pub proof fn law_classification_inverts_hierarchy(t: ExcType)
    ensures
        !merged(t) ==> classify(classes_of(t)) == t,
        merged(t) ==> classify(classes_of(t)) is Exception,
{
}

/// A raised exception is classified as a class that it is an instance of.
pub proof fn law_classification_is_sound(t: ExcType)
    ensures
        t.is_subclass_of(classify(classes_of(t))),
{
}

/// Where a class cannot be raised, its stand-in is one of its base classes, so
/// that handlers of the base catch both. Pattern errors are the exception.
pub proof fn law_fallback_is_a_base(t: ExcType, has_unicode_data: bool)
    requires
        !(t is RePatternError),
    ensures
        t.is_subclass_of(raise_plan(t, has_unicode_data).fallback),
        t.is_subclass_of(raise_plan(t, has_unicode_data).class),
{
}

/// Being an instance of a class is an order: each class is its own, a class of
/// a class is a class, no two classes are classes of each other, and all are
/// `BaseException`.
pub proof fn law_classes_are_ordered(a: ExcType, b: ExcType, c: ExcType)
    ensures
        a.is_subclass_of(a),
        a.is_subclass_of(b) && b.is_subclass_of(c) ==> a.is_subclass_of(c),
        a.is_subclass_of(b) && b.is_subclass_of(a) ==> a == b,
        a.is_subclass_of(ExcType::BaseException),
        a.is_subclass_of(ExcType::Exception) <==> !(a is BaseException || a is SystemExit || a is KeyboardInterrupt),
{
}

/// Whatever its classes are, an exception is taken for one of them, or for the
/// general type where it is of no known one.
pub proof fn law_classification_is_one_of_the_classes(classes: Set<ExcType>)
    ensures
        classes.contains(ExcType::Exception) ==> classes.contains(classify(classes)),
        !classes.contains(ExcType::Exception) ==> classes.contains(classify(classes)) || classify(classes) is BaseException,
{
}

/// Types have names of their own.
#[verifier::spinoff_prover]
#[verifier::rlimit(60)]
pub proof fn law_names_tell_types_apart(a: ExcType, b: ExcType)
    requires
        a.name() == b.name(),
    ensures
        a == b,
{
    reveal_strlit("Exception");
    reveal_strlit("BaseException");
    reveal_strlit("SystemExit");
    reveal_strlit("KeyboardInterrupt");
    reveal_strlit("ArithmeticError");
    reveal_strlit("OverflowError");
    reveal_strlit("ZeroDivisionError");
    reveal_strlit("LookupError");
    reveal_strlit("IndexError");
    reveal_strlit("KeyError");
    reveal_strlit("RuntimeError");
    reveal_strlit("NotImplementedError");
    reveal_strlit("RecursionError");
    reveal_strlit("AssertionError");
    reveal_strlit("AttributeError");
    reveal_strlit("FrozenInstanceError");
    reveal_strlit("MemoryError");
    reveal_strlit("NameError");
    reveal_strlit("UnboundLocalError");
    reveal_strlit("StopIteration");
    reveal_strlit("SyntaxError");
    reveal_strlit("TimeoutError");
    reveal_strlit("TypeError");
    reveal_strlit("ValueError");
    reveal_strlit("UnicodeDecodeError");
    reveal_strlit("UnicodeEncodeError");
    reveal_strlit("JSONDecodeError");
    reveal_strlit("ImportError");
    reveal_strlit("ModuleNotFoundError");
    reveal_strlit("OSError");
    reveal_strlit("FileNotFoundError");
    reveal_strlit("FileExistsError");
    reveal_strlit("IsADirectoryError");
    reveal_strlit("NotADirectoryError");
    reveal_strlit("PermissionError");
    reveal_strlit("UnsupportedOperation");
    reveal_strlit("PatternError");
    let s = a.name();
    let t = b.name();
    assert(s.len() == t.len());
    assert(s[0] == t[0] && s[1] == t[1] && s[2] == t[2] && s[3] == t[3] && s[4] == t[4]);
    assert(s.len() > 7 ==> s[7] == t[7]);
}

/// An exception is raised as its own type, and structured only where it is a
/// codec error with its fields; without them a codec error is a `ValueError`.
pub proof fn law_types_are_raised_as_themselves(t: ExcType, has_unicode_data: bool)
    ensures
        ({
            let plan = raise_plan(t, has_unicode_data);
            let codec = t is UnicodeDecodeError || t is UnicodeEncodeError;
            &&& plan.structured <==> codec && has_unicode_data
            &&& !codec || has_unicode_data ==> plan.class == t
            &&& codec && !has_unicode_data ==> plan.class is ValueError
        }),
{
}

/// Whether a set of classes holds every base class of the ones in it, as those
/// of a Python exception do.
pub open spec fn with_bases(classes: Set<ExcType>) -> bool {
    forall|t: ExcType, base: ExcType|
        #[trigger] classes.contains(t) && #[trigger] t.is_subclass_of(base) ==> classes.contains(base)
}

/// An exception is taken for the most specific type there is: none of the
/// known subclasses of that type is among its classes.
pub proof fn law_classification_is_most_specific(classes: Set<ExcType>, t: ExcType)
    requires
        with_bases(classes),
        classes.contains(t),
        !merged(t),
        t != classify(classes),
    ensures
        !t.is_subclass_of(classify(classes)),
{
    assert(forall|base: ExcType| #[trigger] t.is_subclass_of(base) ==> classes.contains(base));
    assert(t.is_subclass_of(ExcType::Exception) ==> classes.contains(ExcType::Exception));
    assert(t.is_subclass_of(ExcType::ValueError) ==> classes.contains(ExcType::ValueError));
    assert(t.is_subclass_of(ExcType::LookupError) ==> classes.contains(ExcType::LookupError));
    assert(t.is_subclass_of(ExcType::ArithmeticError) ==> classes.contains(ExcType::ArithmeticError));
    assert(t.is_subclass_of(ExcType::RuntimeError) ==> classes.contains(ExcType::RuntimeError));
    assert(t.is_subclass_of(ExcType::AttributeError) ==> classes.contains(ExcType::AttributeError));
    assert(t.is_subclass_of(ExcType::NameError) ==> classes.contains(ExcType::NameError));
    assert(t.is_subclass_of(ExcType::OSError) ==> classes.contains(ExcType::OSError));
}

/// An exception of several families is taken for a member of the first of them:
/// type errors come before value errors, then failed assertions, syntax errors,
/// lookups, arithmetic, runtime errors, attributes, names and the system.
pub proof fn law_families_have_an_order(classes: Set<ExcType>)
    requires
        classes.contains(ExcType::Exception),
    ensures
        ({
            let r = classify(classes);
            let families = seq![
                ExcType::TypeError,
                ExcType::ValueError,
                ExcType::AssertionError,
                ExcType::SyntaxError,
                ExcType::LookupError,
                ExcType::ArithmeticError,
                ExcType::RuntimeError,
                ExcType::AttributeError,
                ExcType::NameError,
                ExcType::OSError,
            ];
            forall|k: int|
                0 <= k < families.len() && classes.contains(#[trigger] families[k]) && (forall|j: int|
                    0 <= j < k ==> !classes.contains(#[trigger] families[j])) ==> r.is_subclass_of(families[k])
        }),
{
    let families = seq![
        ExcType::TypeError,
        ExcType::ValueError,
        ExcType::AssertionError,
        ExcType::SyntaxError,
        ExcType::LookupError,
        ExcType::ArithmeticError,
        ExcType::RuntimeError,
        ExcType::AttributeError,
        ExcType::NameError,
        ExcType::OSError,
    ];
    let r = classify(classes);
    assert forall|k: int|
        0 <= k < families.len() && classes.contains(#[trigger] families[k]) && (forall|j: int|
            0 <= j < k ==> !classes.contains(#[trigger] families[j])) implies r.is_subclass_of(families[k]) by {
        assert(k > 0 ==> !classes.contains(families[0]));
        assert(k > 1 ==> !classes.contains(families[1]));
        assert(k > 2 ==> !classes.contains(families[2]));
        assert(k > 3 ==> !classes.contains(families[3]));
        assert(k > 4 ==> !classes.contains(families[4]));
        assert(k > 5 ==> !classes.contains(families[5]));
        assert(k > 6 ==> !classes.contains(families[6]));
        assert(k > 7 ==> !classes.contains(families[7]));
        assert(k > 8 ==> !classes.contains(families[8]));
    }
}

/// Each type is the one of its Python name: the name of the class in Python,
/// and no other type has it.
#[verifier::spinoff_prover]
#[verifier::rlimit(60)]
pub proof fn law_types_go_by_their_python_names(t: ExcType)
    ensures
        t is Exception <==> t.name() == "Exception"@,
        t is BaseException <==> t.name() == "BaseException"@,
        t is SystemExit <==> t.name() == "SystemExit"@,
        t is KeyboardInterrupt <==> t.name() == "KeyboardInterrupt"@,
        t is ArithmeticError <==> t.name() == "ArithmeticError"@,
        t is OverflowError <==> t.name() == "OverflowError"@,
        t is ZeroDivisionError <==> t.name() == "ZeroDivisionError"@,
        t is LookupError <==> t.name() == "LookupError"@,
        t is IndexError <==> t.name() == "IndexError"@,
        t is KeyError <==> t.name() == "KeyError"@,
        t is RuntimeError <==> t.name() == "RuntimeError"@,
        t is NotImplementedError <==> t.name() == "NotImplementedError"@,
        t is RecursionError <==> t.name() == "RecursionError"@,
        t is AssertionError <==> t.name() == "AssertionError"@,
        t is AttributeError <==> t.name() == "AttributeError"@,
        t is FrozenInstanceError <==> t.name() == "FrozenInstanceError"@,
        t is MemoryError <==> t.name() == "MemoryError"@,
        t is NameError <==> t.name() == "NameError"@,
        t is UnboundLocalError <==> t.name() == "UnboundLocalError"@,
        t is StopIteration <==> t.name() == "StopIteration"@,
        t is SyntaxError <==> t.name() == "SyntaxError"@,
        t is TimeoutError <==> t.name() == "TimeoutError"@,
        t is TypeError <==> t.name() == "TypeError"@,
        t is ValueError <==> t.name() == "ValueError"@,
        t is UnicodeDecodeError <==> t.name() == "UnicodeDecodeError"@,
        t is UnicodeEncodeError <==> t.name() == "UnicodeEncodeError"@,
        t is JsonDecodeError <==> t.name() == "JSONDecodeError"@,
        t is ImportError <==> t.name() == "ImportError"@,
        t is ModuleNotFoundError <==> t.name() == "ModuleNotFoundError"@,
        t is OSError <==> t.name() == "OSError"@,
        t is FileNotFoundError <==> t.name() == "FileNotFoundError"@,
        t is FileExistsError <==> t.name() == "FileExistsError"@,
        t is IsADirectoryError <==> t.name() == "IsADirectoryError"@,
        t is NotADirectoryError <==> t.name() == "NotADirectoryError"@,
        t is PermissionError <==> t.name() == "PermissionError"@,
        t is UnsupportedOperation <==> t.name() == "UnsupportedOperation"@,
        t is RePatternError <==> t.name() == "PatternError"@,
{
    if t.name() == "Exception"@ {
        law_names_tell_types_apart(t, ExcType::Exception);
    }
    if t.name() == "BaseException"@ {
        law_names_tell_types_apart(t, ExcType::BaseException);
    }
    if t.name() == "SystemExit"@ {
        law_names_tell_types_apart(t, ExcType::SystemExit);
    }
    if t.name() == "KeyboardInterrupt"@ {
        law_names_tell_types_apart(t, ExcType::KeyboardInterrupt);
    }
    if t.name() == "ArithmeticError"@ {
        law_names_tell_types_apart(t, ExcType::ArithmeticError);
    }
    if t.name() == "OverflowError"@ {
        law_names_tell_types_apart(t, ExcType::OverflowError);
    }
    if t.name() == "ZeroDivisionError"@ {
        law_names_tell_types_apart(t, ExcType::ZeroDivisionError);
    }
    if t.name() == "LookupError"@ {
        law_names_tell_types_apart(t, ExcType::LookupError);
    }
    if t.name() == "IndexError"@ {
        law_names_tell_types_apart(t, ExcType::IndexError);
    }
    if t.name() == "KeyError"@ {
        law_names_tell_types_apart(t, ExcType::KeyError);
    }
    if t.name() == "RuntimeError"@ {
        law_names_tell_types_apart(t, ExcType::RuntimeError);
    }
    if t.name() == "NotImplementedError"@ {
        law_names_tell_types_apart(t, ExcType::NotImplementedError);
    }
    if t.name() == "RecursionError"@ {
        law_names_tell_types_apart(t, ExcType::RecursionError);
    }
    if t.name() == "AssertionError"@ {
        law_names_tell_types_apart(t, ExcType::AssertionError);
    }
    if t.name() == "AttributeError"@ {
        law_names_tell_types_apart(t, ExcType::AttributeError);
    }
    if t.name() == "FrozenInstanceError"@ {
        law_names_tell_types_apart(t, ExcType::FrozenInstanceError);
    }
    if t.name() == "MemoryError"@ {
        law_names_tell_types_apart(t, ExcType::MemoryError);
    }
    if t.name() == "NameError"@ {
        law_names_tell_types_apart(t, ExcType::NameError);
    }
    if t.name() == "UnboundLocalError"@ {
        law_names_tell_types_apart(t, ExcType::UnboundLocalError);
    }
    if t.name() == "StopIteration"@ {
        law_names_tell_types_apart(t, ExcType::StopIteration);
    }
    if t.name() == "SyntaxError"@ {
        law_names_tell_types_apart(t, ExcType::SyntaxError);
    }
    if t.name() == "TimeoutError"@ {
        law_names_tell_types_apart(t, ExcType::TimeoutError);
    }
    if t.name() == "TypeError"@ {
        law_names_tell_types_apart(t, ExcType::TypeError);
    }
    if t.name() == "ValueError"@ {
        law_names_tell_types_apart(t, ExcType::ValueError);
    }
    if t.name() == "UnicodeDecodeError"@ {
        law_names_tell_types_apart(t, ExcType::UnicodeDecodeError);
    }
    if t.name() == "UnicodeEncodeError"@ {
        law_names_tell_types_apart(t, ExcType::UnicodeEncodeError);
    }
    if t.name() == "JSONDecodeError"@ {
        law_names_tell_types_apart(t, ExcType::JsonDecodeError);
    }
    if t.name() == "ImportError"@ {
        law_names_tell_types_apart(t, ExcType::ImportError);
    }
    if t.name() == "ModuleNotFoundError"@ {
        law_names_tell_types_apart(t, ExcType::ModuleNotFoundError);
    }
    if t.name() == "OSError"@ {
        law_names_tell_types_apart(t, ExcType::OSError);
    }
    if t.name() == "FileNotFoundError"@ {
        law_names_tell_types_apart(t, ExcType::FileNotFoundError);
    }
    if t.name() == "FileExistsError"@ {
        law_names_tell_types_apart(t, ExcType::FileExistsError);
    }
    if t.name() == "IsADirectoryError"@ {
        law_names_tell_types_apart(t, ExcType::IsADirectoryError);
    }
    if t.name() == "NotADirectoryError"@ {
        law_names_tell_types_apart(t, ExcType::NotADirectoryError);
    }
    if t.name() == "PermissionError"@ {
        law_names_tell_types_apart(t, ExcType::PermissionError);
    }
    if t.name() == "UnsupportedOperation"@ {
        law_names_tell_types_apart(t, ExcType::UnsupportedOperation);
    }
    if t.name() == "PatternError"@ {
        law_names_tell_types_apart(t, ExcType::RePatternError);
    }
}

} // verus!
