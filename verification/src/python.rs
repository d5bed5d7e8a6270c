//! Decisions of the Python host: answering suspensions, restoring sessions,
//! validating arguments.

use crate::checkout::{MountSpec, MountSpecMode, Outgoing, PoolError, ResumeValue, TurnEvent, DEFAULT_ASSERT_BYTES};
use crate::exc::ExcType;
use crate::fs_error::{MountError, MountErrorView};
use crate::mount_table::{mount_error, HostDirectory, Mount, MountMode};
use crate::path_security::normalized;
use crate::proto::{debug_quoted, debug_text, ExtFunctionResult, MontyObject, RaisedException};
use crate::text::{cat2, cat3, cat5, same};
use vstd::prelude::*;
use vstd::string::*;

verus! {

/// What the drive loop does about a turn event.
pub enum Dispatch {
    /// The feed is over.
    Return(MontyObject),
    /// Call a method of a dataclass; the instance is the first argument.
    Method { function_name: String, args: Vec<MontyObject>, kwargs: Vec<(MontyObject, MontyObject)>, call_id: u32 },
    /// Call an external function.
    External { function_name: String, args: Vec<MontyObject>, kwargs: Vec<(MontyObject, MontyObject)>, call_id: u32 },
    /// Call the OS fallback.
    Os {
        function_name: String,
        args: Vec<MontyObject>,
        kwargs: Vec<(MontyObject, MontyObject)>,
        not_handled_error: Option<RaisedException>,
    },
    /// Resolve a name.
    Name(String),
    /// Wait for the coroutines of earlier calls.
    Futures(Vec<u32>),
    /// The event cannot be answered: discard the checkout and raise this.
    Fail(String),
}

/// Decides what to do about a turn event. Futures can only be waited for in an
/// asynchronous loop.
pub fn turn_dispatch(event: TurnEvent, asynchronous: bool) -> (r: Dispatch)
    ensures
        match event {
            TurnEvent::Complete(value) => r == Dispatch::Return(value),
            TurnEvent::FunctionCall { function_name, args, kwargs, call_id, method_call } => r == if method_call {
                Dispatch::Method { function_name, args, kwargs, call_id }
            } else {
                Dispatch::External { function_name, args, kwargs, call_id }
            },
            TurnEvent::OsCall { function_name, args, kwargs, not_handled_error, .. } => r == (Dispatch::Os {
                function_name,
                args,
                kwargs,
                not_handled_error,
            }),
            TurnEvent::NameLookup { name } => r == Dispatch::Name(name),
            TurnEvent::ResolveFutures { pending_call_ids } => if asynchronous {
                r == Dispatch::Futures(pending_call_ids)
            } else {
                r is Fail && r->Fail_0@ == "async external functions require AsyncMonty"@
            },
        },
{
    match event {
        TurnEvent::Complete(value) => Dispatch::Return(value),
        TurnEvent::FunctionCall { function_name, args, kwargs, call_id, method_call } => {
            if method_call {
                Dispatch::Method { function_name, args, kwargs, call_id }
            } else {
                Dispatch::External { function_name, args, kwargs, call_id }
            }
        },
        TurnEvent::OsCall { function_name, args, kwargs, call_id: _, not_handled_error } => {
            Dispatch::Os { function_name, args, kwargs, not_handled_error }
        },
        TurnEvent::NameLookup { name } => Dispatch::Name(name),
        TurnEvent::ResolveFutures { pending_call_ids } => {
            if asynchronous {
                Dispatch::Futures(pending_call_ids)
            } else {
                Dispatch::Fail("async external functions require AsyncMonty".to_owned())
            }
        },
    }
}

/// Maps the result of a callback onto a resume payload; `too_deep` is what is
/// known of a returned value. Futures are dealt with before this point.
pub fn ext_to_resume(result: ExtFunctionResult, too_deep: bool) -> (r: Result<ResumeValue, String>)
    ensures
        match result {
            ExtFunctionResult::Return(value) => r == Ok::<ResumeValue, String>(
                ResumeValue::Return(Outgoing { value, too_deep }),
            ),
            ExtFunctionResult::Error(exc) => r == Ok::<ResumeValue, String>(ResumeValue::Error(exc)),
            ExtFunctionResult::NotFound(_) => r == Ok::<ResumeValue, String>(ResumeValue::NotFound),
            ExtFunctionResult::Future(_) => r is Err && r->Err_0@ == "unexpected future result"@,
        },
{
    match result {
        ExtFunctionResult::Return(value) => Ok(ResumeValue::Return(Outgoing { value, too_deep })),
        ExtFunctionResult::Error(exc) => Ok(ResumeValue::Error(exc)),
        ExtFunctionResult::NotFound(_) => Ok(ResumeValue::NotFound),
        ExtFunctionResult::Future(_) => Err("unexpected future result".to_owned()),
    }
}

/// The answer to an OS call that nothing handles: the exception that came with
/// the call, or a general one.
pub fn on_no_handler(function_name: &str, not_handled_error: Option<RaisedException>) -> (r: RaisedException)
    ensures
        match not_handled_error {
            Some(exc) => r == exc,
            None => r.says(
                ExcType::RuntimeError,
                "'"@ + function_name@ + "' is not supported in this environment"@,
            ),
        },
{
    match not_handled_error {
        Some(exc) => exc,
        None => RaisedException::new(
            ExcType::RuntimeError,
            cat3("'", function_name, "' is not supported in this environment"),
        ),
    }
}

/// What the OS fallback did.
pub enum OsCallback {
    /// There is no fallback, or it declined.
    NotHandled,
    /// The fallback returned a value.
    Returned(MontyObject),
    /// The fallback raised, or returned what has no counterpart in the sandbox.
    Raised(RaisedException),
}

/// The answer to an OS call that no mount covers.
pub fn dispatch_os_parts(function_name: &str, not_handled_error: Option<RaisedException>, callback: OsCallback) -> (r:
    ExtFunctionResult)
    ensures
        match callback {
            OsCallback::Returned(value) => r == ExtFunctionResult::Return(value),
            OsCallback::Raised(exc) => r == ExtFunctionResult::Error(exc),
            OsCallback::NotHandled => {
                &&& r is Error
                &&& match not_handled_error {
                    Some(exc) => r->Error_0 == exc,
                    None => r->Error_0.says(
                        ExcType::RuntimeError,
                        "'"@ + function_name@ + "' is not supported in this environment"@,
                    ),
                }
            },
        },
{
    match callback {
        OsCallback::Returned(value) => ExtFunctionResult::Return(value),
        OsCallback::Raised(exc) => ExtFunctionResult::Error(exc),
        OsCallback::NotHandled => ExtFunctionResult::Error(on_no_handler(function_name, not_handled_error)),
    }
}

/// What came of answering a suspension.
pub enum CallbackOutcome {
    /// A call returned; the flag is what is known of a returned value's depth.
    Returned(ExtFunctionResult, bool),
    /// A call returned a coroutine, which is now a task.
    Coroutine,
    /// A name was looked up.
    Name(Option<Outgoing>),
    /// The coroutines of earlier calls are done.
    Futures(Vec<(u32, ExtFunctionResult, bool)>),
    /// The answer cannot be given, for the reason given.
    Failed(String),
}

/// The answer to a suspension, and which kind of resume delivers it.
pub enum TurnAnswer {
    Call(ResumeValue),
    Name(Option<Outgoing>),
    Futures(Vec<(u32, ResumeValue)>),
}

/// The resume payload of a callback's result; `None` of a future.
pub open spec fn resume_payload(result: ExtFunctionResult, too_deep: bool) -> Option<ResumeValue> {
    match result {
        ExtFunctionResult::Return(value) => Some(ResumeValue::Return(Outgoing { value, too_deep })),
        ExtFunctionResult::Error(exc) => Some(ResumeValue::Error(exc)),
        ExtFunctionResult::NotFound(_) => Some(ResumeValue::NotFound),
        ExtFunctionResult::Future(_) => None,
    }
}

/// Whether every coroutine came to a result that can be sent.
pub open spec fn all_resolved(results: Seq<(u32, ExtFunctionResult, bool)>) -> bool {
    forall|i: int| 0 <= i < results.len() ==> !((#[trigger] results[i]).1 is Future)
}

fn resolve_all(results: Vec<(u32, ExtFunctionResult, bool)>) -> (r: Result<Vec<(u32, ResumeValue)>, String>)
    ensures
        r is Ok <==> all_resolved(results@),
        r is Ok ==> r->Ok_0@.len() == results@.len() && forall|i: int|
            0 <= i < results@.len() ==> (#[trigger] r->Ok_0@[i]).0 == results@[i].0 && Some(r->Ok_0@[i].1)
                == resume_payload(results@[i].1, results@[i].2),
        r is Err ==> r->Err_0@ == "unexpected future result"@,
{
    let mut out: Vec<(u32, ResumeValue)> = Vec::new();
    let ghost all = results@;
    for entry in it: results
        invariant
            it.seq() == all,
            all == results@,
            out@.len() == it.index(),
            forall|i: int| 0 <= i < it.index() ==> !((#[trigger] all[i]).1 is Future),
            forall|i: int|
                0 <= i < it.index() ==> (#[trigger] out@[i]).0 == all[i].0 && Some(out@[i].1) == resume_payload(
                    all[i].1,
                    all[i].2,
                ),
    {
        let ghost at = it.index();
        proof {
            assert(entry == all[at]);
        }
        match ext_to_resume(entry.1, entry.2) {
            Ok(value) => out.push((entry.0, value)),
            Err(message) => return Err(message),
        }
    }
    Ok(out)
}

/// The answer to a suspension. On failure the checkout has to be discarded: its
/// worker would wait forever.
pub fn turn_answer(outcome: CallbackOutcome) -> (r: Result<TurnAnswer, String>)
    ensures
        match outcome {
            CallbackOutcome::Returned(result, too_deep) => match resume_payload(result, too_deep) {
                Some(value) => r == Ok::<TurnAnswer, String>(TurnAnswer::Call(value)),
                None => r is Err && r->Err_0@ == "unexpected future result"@,
            },
            CallbackOutcome::Coroutine => r == Ok::<TurnAnswer, String>(TurnAnswer::Call(ResumeValue::Future)),
            CallbackOutcome::Name(value) => r == Ok::<TurnAnswer, String>(TurnAnswer::Name(value)),
            CallbackOutcome::Futures(results) => {
                &&& r is Ok <==> all_resolved(results@)
                &&& r is Ok ==> r->Ok_0 is Futures && r->Ok_0->Futures_0@.len() == results@.len() && forall|i: int|
                    0 <= i < results@.len() ==> (#[trigger] r->Ok_0->Futures_0@[i]).0 == results@[i].0 && Some(
                        r->Ok_0->Futures_0@[i].1,
                    ) == resume_payload(results@[i].1, results@[i].2)
                &&& r is Err ==> r->Err_0@ == "unexpected future result"@
            },
            CallbackOutcome::Failed(message) => r == Err::<TurnAnswer, String>(message),
        },
{
    match outcome {
        CallbackOutcome::Returned(result, too_deep) => match ext_to_resume(result, too_deep) {
            Ok(value) => Ok(TurnAnswer::Call(value)),
            Err(message) => Err(message),
        },
        CallbackOutcome::Coroutine => Ok(TurnAnswer::Call(ResumeValue::Future)),
        CallbackOutcome::Name(value) => Ok(TurnAnswer::Name(value)),
        CallbackOutcome::Futures(results) => match resolve_all(results) {
            Ok(resolved) => Ok(TurnAnswer::Futures(resolved)),
            Err(message) => Err(message),
        },
        CallbackOutcome::Failed(message) => Err(message),
    }
}

/// The first failure of the print callback in a turn. Once it has failed it is
/// not called again.
pub struct PrintFailure {
    first: Option<RaisedException>,
}

impl View for PrintFailure {
    type V = Option<RaisedException>;

    closed spec fn view(&self) -> Option<RaisedException> {
        self.first
    }
}

impl PrintFailure {
    /// No failure.
    pub fn new() -> (r: PrintFailure)
        ensures
            r@ is None,
    {
        PrintFailure { first: None }
    }

    /// Whether the callback is still called.
    pub fn writes(&self) -> (r: bool)
        ensures
            r == (self@ is None),
    {
        self.first.is_none()
    }

    /// Notes what the callback did with a piece of output.
    pub fn note(&mut self, outcome: Result<(), RaisedException>)
        ensures
            final(self)@ == match old(self)@ {
                Some(exc) => Some(exc),
                None => match outcome {
                    Ok(_) => None,
                    Err(exc) => Some(exc),
                },
            },
    {
        if self.first.is_none() {
            if let Err(exc) = outcome {
                self.first = Some(exc);
            }
        }
    }

    /// The failure.
    pub fn into_first(self) -> (r: Option<RaisedException>)
        ensures
            r == self@,
    {
        self.first
    }
}

/// Whether a turn left the worker waiting for an answer.
pub open spec fn awaits_answer(result: Result<TurnEvent, PoolError>) -> bool {
    result is Ok && !(result->Ok_0 is Complete)
}

/// Whether the checkout has to go after a turn: a failed print callback aborts
/// the feed, so a worker that waits for an answer would wait forever.
pub fn discard_after_turn(result: &Result<TurnEvent, PoolError>, print_failed: bool) -> (r: bool)
    ensures
        r == (print_failed && awaits_answer(*result)),
{
    match result {
        Ok(TurnEvent::Complete(_)) => false,
        Ok(_) => print_failed,
        Err(_) => false,
    }
}

/// Why a turn failed for the caller.
pub enum TurnFailure {
    /// A print callback raised.
    Print(RaisedException),
    Pool(PoolError),
}

/// Converts a turn outcome into the next event; failures of print callbacks
/// take precedence.
pub fn finalize_turn(result: Result<TurnEvent, PoolError>, print_err: Option<RaisedException>) -> (r: Result<
    TurnEvent,
    TurnFailure,
>)
    ensures
        match print_err {
            Some(exc) => r == Err::<TurnEvent, TurnFailure>(TurnFailure::Print(exc)),
            None => match result {
                Ok(event) => r == Ok::<TurnEvent, TurnFailure>(event),
                Err(err) => r == Err::<TurnEvent, TurnFailure>(TurnFailure::Pool(err)),
            },
        },
{
    match print_err {
        Some(exc) => Err(TurnFailure::Print(exc)),
        None => match result {
            Ok(event) => Ok(event),
            Err(err) => Err(TurnFailure::Pool(err)),
        },
    }
}

// ---------------------------------------------------------------------------
// Restoring sessions
// ---------------------------------------------------------------------------

/// Whether a session has been fed or restored.
pub struct SessionUse {
    used: bool,
}

impl View for SessionUse {
    type V = bool;

    closed spec fn view(&self) -> bool {
        self.used
    }
}

impl SessionUse {
    /// A fresh session.
    pub fn fresh() -> (r: SessionUse)
        ensures
            !r@,
    {
        SessionUse { used: false }
    }

    /// Notes that the session has been used.
    pub fn mark_used(&mut self)
        ensures
            final(self)@,
    {
        self.used = true;
    }

    /// Claims a fresh session for a restore; a used one is refused.
    pub fn claim(&mut self) -> (r: Result<(), String>)
        ensures
            final(self)@,
            r is Ok <==> !old(self)@,
            r is Err ==> r->Err_0@
                == "load / load_snapshot is only valid on a fresh session, before any feed_run / feed_start / load / load_snapshot"@,
    {
        if self.used {
            return Err(
                "load / load_snapshot is only valid on a fresh session, before any feed_run / feed_start / load / load_snapshot".to_owned(),
            );
        }
        self.used = true;
        Ok(())
    }
}

/// Accepts a restored idle session. A suspended one is refused, and its
/// checkout has to be discarded.
pub fn accept_idle(event: Option<TurnEvent>) -> (r: Result<(), String>)
    ensures
        r is Ok <==> event is None,
        r is Err ==> r->Err_0@ == "this dump is a suspended snapshot — use load_snapshot() to resume it"@,
{
    match event {
        None => Ok(()),
        Some(_) => Err("this dump is a suspended snapshot — use load_snapshot() to resume it".to_owned()),
    }
}

/// Accepts a restored suspension under the script name of the dump, or of the
/// session where the worker did not report one. An idle session is refused,
/// and its checkout has to be discarded.
pub fn accept_snapshot(event: Option<TurnEvent>, restored: Option<String>, session_name: &str) -> (r: Result<
    (TurnEvent, String),
    String,
>)
    ensures
        r is Ok <==> event is Some,
        r is Ok ==> r->Ok_0.0 == event->Some_0 && r->Ok_0.1@ == match restored {
            Some(name) => name@,
            None => session_name@,
        },
        r is Err ==> r->Err_0@ == "this dump is an idle session — use load() to restore it"@,
{
    match event {
        None => Err("this dump is an idle session — use load() to restore it".to_owned()),
        Some(event) => {
            let name: String = match restored {
                Some(name) => name,
                None => session_name.to_owned(),
            };
            Ok((event, name))
        },
    }
}

// ---------------------------------------------------------------------------
// Arguments
// ---------------------------------------------------------------------------

/// A Python argument of type bool or int, as far as it matters here.
pub enum AnnotationsArg {
    Bool(bool),
    /// An int; `None` where it is outside the range of `u32`.
    Int(Option<u32>),
    Other,
}

/// Why an argument is refused, with the exception class to raise.
pub struct ArgError {
    pub exc_type: ExcType,
    pub message: String,
}

/// The truncation length that an `assert_message_annotations` argument asks
/// for; 0 turns annotations off, so that it cannot be given as an int.
pub fn annotation_bytes(arg: AnnotationsArg) -> (r: Result<u32, ArgError>)
    ensures
        match arg {
            AnnotationsArg::Bool(enabled) => r == Ok::<u32, ArgError>(if enabled { DEFAULT_ASSERT_BYTES } else { 0 }),
            AnnotationsArg::Int(Some(n)) if n > 0 => r == Ok::<u32, ArgError>(n),
            AnnotationsArg::Int(_) => {
                &&& r is Err
                &&& r->Err_0.exc_type is ValueError
                &&& r->Err_0.message@ == "assert_message_annotations int value must be between 1 and 2**32 - 1"@
            },
            AnnotationsArg::Other => {
                &&& r is Err
                &&& r->Err_0.exc_type is TypeError
                &&& r->Err_0.message@ == "assert_message_annotations must be a bool or an int truncation length"@
            },
        },
{
    match arg {
        AnnotationsArg::Bool(enabled) => if enabled { Ok(DEFAULT_ASSERT_BYTES) } else { Ok(0) },
        AnnotationsArg::Int(value) => {
            if let Some(n) = value {
                if n > 0 {
                    return Ok(n);
                }
            }
            Err(
                ArgError {
                    exc_type: ExcType::ValueError,
                    message: "assert_message_annotations int value must be between 1 and 2**32 - 1".to_owned(),
                },
            )
        },
        AnnotationsArg::Other => Err(
            ArgError {
                exc_type: ExcType::TypeError,
                message: "assert_message_annotations must be a bool or an int truncation length".to_owned(),
            },
        ),
    }
}

/// Sizes and deadlines of a pool; durations are in nanoseconds.
#[derive(Clone, Copy, Debug, PartialEq, Eq, Structural)]
pub struct PoolConfig {
    pub min_processes: usize,
    pub max_processes: usize,
    pub checkout_timeout: Option<u128>,
    pub request_timeout: Option<u128>,
    pub max_checkouts_per_worker: Option<u32>,
}

/// The configuration of a pool of subprocesses, from its defaults and the
/// arguments of the constructor.
pub fn parse_pool_config(
    defaults: PoolConfig,
    min_processes: usize,
    max_processes: Option<usize>,
    checkout_timeout: Option<u128>,
    request_timeout: Option<u128>,
    max_checkouts_per_worker: Option<u32>,
) -> (r: PoolConfig)
    ensures
        r == (PoolConfig {
            min_processes,
            max_processes: match max_processes {
                Some(max) => max,
                None => defaults.max_processes,
            },
            checkout_timeout,
            request_timeout,
            max_checkouts_per_worker,
        }),
{
    PoolConfig {
        min_processes,
        max_processes: match max_processes {
            Some(max) => max,
            None => defaults.max_processes,
        },
        checkout_timeout,
        request_timeout,
        max_checkouts_per_worker,
    }
}

/// The configuration of a pool of connections: none are made ahead of time, so
/// only the cap and the deadlines can be given.
pub fn parse_websocket_config(
    defaults: PoolConfig,
    max_processes: Option<usize>,
    checkout_timeout: Option<u128>,
    request_timeout: Option<u128>,
) -> (r: PoolConfig)
    ensures
        r == (PoolConfig {
            max_processes: match max_processes {
                Some(max) => max,
                None => defaults.max_processes,
            },
            checkout_timeout,
            request_timeout,
            ..defaults
        }),
{
    PoolConfig {
        max_processes: match max_processes {
            Some(max) => max,
            None => defaults.max_processes,
        },
        checkout_timeout,
        request_timeout,
        ..defaults
    }
}

/// Rejects an OS handler that is not callable; `class_name` is its type.
pub fn check_os_callable(callable: bool, class_name: &str) -> (r: Result<(), ArgError>)
    ensures
        r is Ok <==> callable,
        r is Err ==> r->Err_0.exc_type is TypeError && r->Err_0.message@ == "'"@ + class_name@
            + "' object is not callable"@,
{
    if callable {
        Ok(())
    } else {
        Err(
            ArgError { exc_type: ExcType::TypeError, message: cat3("'", class_name, "' object is not callable") },
        )
    }
}

/// The name of a mount mode.
pub open spec fn mode_name(mode: MountSpecMode) -> Seq<char> {
    match mode {
        MountSpecMode::ReadOnly => "read-only"@,
        MountSpecMode::ReadWrite => "read-write"@,
        MountSpecMode::Overlay => "overlay"@,
    }
}

/// Returns the name of a mount mode.
pub fn mount_mode_name(mode: MountSpecMode) -> (r: String)
    ensures
        r@ == mode_name(mode),
{
    match mode {
        MountSpecMode::ReadOnly => "read-only".to_owned(),
        MountSpecMode::ReadWrite => "read-write".to_owned(),
        MountSpecMode::Overlay => "overlay".to_owned(),
    }
}

/// The mount mode with a name.
pub fn parse_mount_mode(name: &str) -> (r: Option<MountSpecMode>)
    ensures
        forall|mode: MountSpecMode| #[trigger] mode_name(mode) == name@ ==> r == Some(mode),
        r is Some ==> mode_name(r->Some_0) == name@,
{
    proof {
        reveal_strlit("read-only");
        reveal_strlit("read-write");
        reveal_strlit("overlay");
        assert("read-only"@.len() == 9);
        assert("read-write"@.len() == 10);
        assert("overlay"@.len() == 7);
    }
    if same(name, "read-only") {
        Some(MountSpecMode::ReadOnly)
    } else if same(name, "read-write") {
        Some(MountSpecMode::ReadWrite)
    } else if same(name, "overlay") {
        Some(MountSpecMode::Overlay)
    } else {
        None
    }
}

/// The mount mode of a Python mount.
pub fn mount_spec_mode(name: &str) -> (r: Result<MountSpecMode, ArgError>)
    ensures
        r is Ok ==> mode_name(r->Ok_0) == name@,
        r is Err ==> r->Err_0.exc_type is ValueError && r->Err_0.message@ == "unknown mount mode "@ + debug_text(name@),
        r is Err ==> forall|mode: MountSpecMode| #[trigger] mode_name(mode) != name@,
{
    match parse_mount_mode(name) {
        Some(mode) => Ok(mode),
        None => Err(
            ArgError {
                exc_type: ExcType::ValueError,
                message: cat2("unknown mount mode ", debug_quoted(name).as_str()),
            },
        ),
    }
}

/// The configuration of a Python mount, which has to be usable: its virtual
/// path is normalized, and its host directory is `canonical`, the path of
/// `host` in words.
pub fn mount_dir(
    virtual_path: &str,
    host_path: &str,
    host: HostDirectory,
    canonical: String,
    mode: MountSpecMode,
    write_bytes_limit: Option<u64>,
    memory_usage_limit: u64,
) -> (r: Result<MountSpec, MountError>)
    ensures
        match mount_error(virtual_path@, host_path@, host) {
            Some(message) => r is Err && r->Err_0@ == MountErrorView::InvalidMount(message),
            None => {
                &&& r is Ok
                &&& r->Ok_0.virtual_path@ == normalized(virtual_path@)
                &&& r->Ok_0.host_path == canonical
                &&& r->Ok_0.mode == mode
                &&& r->Ok_0.write_bytes_limit == write_bytes_limit
                &&& r->Ok_0.memory_usage_limit == memory_usage_limit
            },
        },
{
    match Mount::new(virtual_path, host_path, host, MountMode::ReadOnly, write_bytes_limit) {
        Err(err) => Err(err),
        Ok(mount) => Ok(
            MountSpec {
                virtual_path: mount.virtual_path().to_owned(),
                host_path: canonical,
                mode,
                write_bytes_limit: mount.write_bytes_limit(),
                memory_usage_limit,
            },
        ),
    }
}

/// Whether a feed that is driven by hand stops at an event: an OS call goes to
/// the OS handler first where there is one, anything else is for the caller.
pub fn surfaces(event: &TurnEvent, has_os: bool) -> (r: bool)
    ensures
        r == !(*event is OsCall && has_os),
{
    match event {
        TurnEvent::OsCall { .. } => !has_os,
        _ => true,
    }
}

/// A Python mount in words.
pub fn mount_repr(virtual_path: &str, host_path: &str, mode: MountSpecMode) -> (r: String)
    ensures
        r@ == "MountDir('"@ + virtual_path@ + "', '"@ + host_path@ + "', '"@ + mode_name(mode) + "')"@,
{
    let mut out: String = cat5("MountDir('", virtual_path, "', '", host_path, "', '");
    out.append(mount_mode_name(mode).as_str());
    out.append("')");
    out
}

/// A mode's name gives the mode back.
pub proof fn law_mode_names_are_distinct(a: MountSpecMode, b: MountSpecMode)
    requires
        mode_name(a) == mode_name(b),
    ensures
        a == b,
{
    reveal_strlit("read-only");
    reveal_strlit("read-write");
    reveal_strlit("overlay");
    assert("read-only"@.len() == 9);
    assert("read-write"@.len() == 10);
    assert("overlay"@.len() == 7);
}

/// A callback's result is delivered as it came: a value with what is known of
/// its depth, an exception, or that there is no such function. Only a future
/// cannot be delivered.
pub proof fn law_results_are_delivered_as_they_came(result: ExtFunctionResult, too_deep: bool)
    ensures
        resume_payload(result, too_deep) is None <==> result is Future,
        result is Return ==> resume_payload(result, too_deep) == Some(
            ResumeValue::Return(Outgoing { value: result->Return_0, too_deep }),
        ),
        result is Error ==> resume_payload(result, too_deep) == Some(ResumeValue::Error(result->Error_0)),
        result is NotFound ==> resume_payload(result, too_deep) == Some(ResumeValue::NotFound),
{
}

/// A worker waits for an answer after every event but the end of its feed, and
/// after no failure.
pub proof fn law_only_suspensions_await_an_answer(result: Result<TurnEvent, PoolError>)
    ensures
        awaits_answer(result) <==> result is Ok && (result->Ok_0 is FunctionCall || result->Ok_0 is OsCall
            || result->Ok_0 is NameLookup || result->Ok_0 is ResolveFutures),
{
}

/// Modes of mounts go by their names, and no other text names one.
pub proof fn law_modes_go_by_name(mode: MountSpecMode)
    ensures
        mode is ReadOnly <==> mode_name(mode) == "read-only"@,
        mode is ReadWrite <==> mode_name(mode) == "read-write"@,
        mode is Overlay <==> mode_name(mode) == "overlay"@,
{
    if mode_name(mode) == "read-only"@ {
        law_mode_names_are_distinct(mode, MountSpecMode::ReadOnly);
    }
    if mode_name(mode) == "read-write"@ {
        law_mode_names_are_distinct(mode, MountSpecMode::ReadWrite);
    }
    if mode_name(mode) == "overlay"@ {
        law_mode_names_are_distinct(mode, MountSpecMode::Overlay);
    }
}

} // verus!
