//! An in-process session: who holds it, and how its suspensions are answered.

use crate::exc::ExcType;
use crate::proto::{FunctionCall, MontyObject, NameLookupResult, RaisedException};
use crate::text::{cat3, is_prefix, starts_with};
use vstd::prelude::*;

verus! {

/// The session of an owner; running a snippet takes it out until it is put back.
pub struct ReplSlot<R> {
    repl: Option<R>,
}

impl<R> View for ReplSlot<R> {
    type V = Option<R>;

    closed spec fn view(&self) -> Option<R> {
        self.repl
    }
}

impl<R> ReplSlot<R> {
    /// A slot that holds a session.
    pub fn new(repl: R) -> (r: ReplSlot<R>)
        ensures
            r@ == Some(repl),
    {
        ReplSlot { repl: Some(repl) }
    }

    /// A slot whose session lives inside a snapshot for now.
    pub fn empty_owner() -> (r: ReplSlot<R>)
        ensures
            r@ is None,
    {
        ReplSlot { repl: None }
    }

    /// Takes the session to run a snippet on it.
    pub fn take_repl(&mut self) -> (r: Result<R, String>)
        ensures
            final(self)@ is None,
            match old(self)@ {
                Some(repl) => r == Ok::<R, String>(repl),
                None => r is Err && r->Err_0@ == "REPL session is currently executing another snippet"@,
            },
    {
        let mut taken: Option<R> = None;
        core::mem::swap(&mut self.repl, &mut taken);
        match taken {
            Some(repl) => Ok(repl),
            None => Err("REPL session is currently executing another snippet".to_owned()),
        }
    }

    /// Puts the session back.
    pub fn put_repl(&mut self, repl: R)
        ensures
            final(self)@ == Some(repl),
    {
        self.repl = Some(repl);
    }
}

/// Signals that cleanup is over unless the session has been taken.
pub struct CleanupStartGuard {
    armed: bool,
}

impl View for CleanupStartGuard {
    type V = bool;

    closed spec fn view(&self) -> bool {
        self.armed
    }
}

impl CleanupStartGuard {
    /// An armed guard.
    pub fn new() -> (r: CleanupStartGuard)
        ensures
            r@,
    {
        CleanupStartGuard { armed: true }
    }

    /// Disables signalling once the session has been taken.
    pub fn disarm(&mut self)
        ensures
            !final(self)@,
    {
        self.armed = false;
    }

    /// Whether to signal when the guard goes away.
    pub fn finish_on_drop(&self) -> (r: bool)
        ensures
            r == self@,
    {
        self.armed
    }
}

/// Where a snippet is suspended.
pub enum ReplEvent {
    Complete(MontyObject),
    FunctionCall(FunctionCall),
    NameLookup(String),
    OsCall { function_name: String },
    ResolveFutures,
}

/// What the drive loop does about a suspension.
pub enum ReplStep {
    /// Put the session back and return the value.
    Finish(MontyObject),
    /// Call a method of a dataclass.
    Method(FunctionCall),
    /// Call a function of a host extension.
    HostExtension(FunctionCall),
    /// Call an external function.
    External(FunctionCall),
    /// Look the name up among the external functions.
    LookUp(String),
    /// Resume the name lookup with this.
    ResumeName(NameLookupResult),
    /// Call the OS callback.
    CallOs(String),
    /// Resume the OS call with this exception.
    ResumeError(RaisedException),
    /// Put the session back and raise this.
    Abort(String),
}

/// Prefix of the names of host extension functions.
pub open spec fn is_extension_call(name: Seq<char>) -> bool {
    is_prefix("ext:"@, name)
}

/// Decides how a suspension is answered. `externals` and `os` say whether
/// external functions and an OS callback were given.
pub fn feed_start_loop(event: ReplEvent, externals: bool, os: bool) -> (r: ReplStep)
    ensures
        match event {
            ReplEvent::Complete(value) => r == ReplStep::Finish(value),
            ReplEvent::FunctionCall(call) => if call.method_call {
                r == ReplStep::Method(call)
            } else if is_extension_call(call.function_name@) {
                r == ReplStep::HostExtension(call)
            } else if externals {
                r == ReplStep::External(call)
            } else {
                r is Abort && r->Abort_0@ == "External function '"@ + call.function_name@
                    + "' called but no external_functions provided"@
            },
            ReplEvent::NameLookup(name) => if externals {
                r == ReplStep::LookUp(name)
            } else {
                r == ReplStep::ResumeName(NameLookupResult::Undefined)
            },
            ReplEvent::OsCall { function_name } => if os {
                r == ReplStep::CallOs(function_name)
            } else {
                r is ResumeError && r->ResumeError_0.says(
                    ExcType::NotImplementedError,
                    "OS function '"@ + function_name@ + "' not implemented"@,
                )
            },
            ReplEvent::ResolveFutures => r is Abort && r->Abort_0@
                == "async futures not supported with `MontyRepl.feed_run`"@,
        },
{
    match event {
        ReplEvent::Complete(value) => ReplStep::Finish(value),
        ReplEvent::FunctionCall(call) => {
            if call.method_call {
                ReplStep::Method(call)
            } else if starts_with(call.function_name.as_str(), "ext:") {
                ReplStep::HostExtension(call)
            } else if externals {
                ReplStep::External(call)
            } else {
                ReplStep::Abort(
                    cat3(
                        "External function '",
                        call.function_name.as_str(),
                        "' called but no external_functions provided",
                    ),
                )
            }
        },
        ReplEvent::NameLookup(name) => {
            if externals {
                ReplStep::LookUp(name)
            } else {
                ReplStep::ResumeName(NameLookupResult::Undefined)
            }
        },
        ReplEvent::OsCall { function_name } => {
            if os {
                ReplStep::CallOs(function_name)
            } else {
                ReplStep::ResumeError(
                    RaisedException::new(
                        ExcType::NotImplementedError,
                        cat3("OS function '", function_name.as_str(), "' not implemented"),
                    ),
                )
            }
        },
        ReplEvent::ResolveFutures => ReplStep::Abort(
            "async futures not supported with `MontyRepl.feed_run`".to_owned(),
        ),
    }
}

/// What a name stands for, given the docstring of the external function of
/// that name, if there is one.
pub fn resolve_name(name: String, found: Option<Option<String>>) -> (r: NameLookupResult)
    ensures
        r == match found {
            Some(docstring) => NameLookupResult::Value(MontyObject::Function { name, docstring }),
            None => NameLookupResult::Undefined,
        },
{
    match found {
        Some(docstring) => NameLookupResult::Value(MontyObject::Function { name, docstring }),
        None => NameLookupResult::Undefined,
    }
}

/// A snippet that starts only when it is first awaited. `S` is what starting
/// it takes.
pub struct LazyStart<S> {
    start: Option<S>,
    has_future: bool,
    has_waiter: bool,
}

/// What awaiting a lazy snippet does.
pub enum AwaitStep<S> {
    /// Use the future and the cleanup waiter that are there.
    UseExisting,
    /// Start the snippet; hand the result to `started`.
    Start(S),
    /// Raise this.
    Fail(String),
}

impl<S> LazyStart<S> {
    /// What starting takes, until it has been taken.
    pub closed spec fn start(self) -> Option<S> {
        self.start
    }

    /// Whether there is a future.
    pub closed spec fn has_future(self) -> bool {
        self.has_future
    }

    /// Whether there is a cleanup waiter.
    pub closed spec fn has_waiter(self) -> bool {
        self.has_waiter
    }

    /// A snippet that has not been awaited.
    pub fn new(start: S) -> (r: LazyStart<S>)
        ensures
            r.start() == Some(start),
            !r.has_future(),
            !r.has_waiter(),
    {
        LazyStart { start: Some(start), has_future: false, has_waiter: false }
    }

    /// Awaits the snippet: the first to do so starts it.
    pub fn get_or_start_future(&mut self) -> (r: AwaitStep<S>)
        ensures
            final(self).has_future() == old(self).has_future(),
            final(self).has_waiter() == old(self).has_waiter(),
            old(self).has_future() && old(self).has_waiter() ==> r is UseExisting,
            old(self).has_future() && !old(self).has_waiter() ==> r is Fail && r->Fail_0@
                == "Awaitable cleanup waiter is missing"@,
            old(self).has_future() ==> final(self).start() == old(self).start(),
            !old(self).has_future() ==> final(self).start() is None && match old(self).start() {
                Some(start) => r == AwaitStep::Start(start),
                None => r is Fail && r->Fail_0@ == "Awaitable is currently starting"@,
            },
    {
        if self.has_future {
            if self.has_waiter {
                return AwaitStep::UseExisting;
            }
            return AwaitStep::Fail("Awaitable cleanup waiter is missing".to_owned());
        }
        let mut taken: Option<S> = None;
        core::mem::swap(&mut self.start, &mut taken);
        match taken {
            Some(start) => AwaitStep::Start(start),
            None => AwaitStep::Fail("Awaitable is currently starting".to_owned()),
        }
    }

    /// Notes that the snippet has started. Returns whether its future is to be
    /// kept: one that is there already is used instead.
    pub fn started(&mut self) -> (r: Result<bool, String>)
        ensures
            final(self).start() == old(self).start(),
            !old(self).has_future() ==> r == Ok::<bool, String>(true),
            !old(self).has_future() ==> final(self).has_future() && final(self).has_waiter(),
            old(self).has_future() ==> final(self).has_future() && final(self).has_waiter() == old(self).has_waiter(),
            old(self).has_future() && old(self).has_waiter() ==> r == Ok::<bool, String>(false),
            old(self).has_future() && !old(self).has_waiter() ==> r is Err && r->Err_0@
                == "Awaitable cleanup waiter is missing"@,
    {
        if self.has_future {
            if self.has_waiter {
                return Ok(false);
            }
            return Err("Awaitable cleanup waiter is missing".to_owned());
        }
        self.has_future = true;
        self.has_waiter = true;
        Ok(true)
    }
}

/// A call goes to a host extension exactly where its name begins with the
/// prefix of one.
pub proof fn law_extension_calls_begin_with_the_prefix(name: Seq<char>, rest: Seq<char>)
    ensures
        is_extension_call("ext:"@ + rest),
        is_extension_call(name) ==> name == "ext:"@ + name.skip(4),
{
    reveal_strlit("ext:");
    assert("ext:"@.len() == 4);
    assert(("ext:"@ + rest).take(4) =~= "ext:"@);
    if is_extension_call(name) {
        assert(name =~= name.take(4) + name.skip(4));
    }
}

} // verus!
