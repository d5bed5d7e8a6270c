//! A checked-out worker: one REPL session, driven turn by turn.
//!
//! The checkout decides what to send to its worker and what each event of the
//! worker means; sending, receiving, the watchdog and mounted-file I/O happen
//! around it. `W` is the worker: dropping one kills it and frees its place in
//! the pool. Durations are in nanoseconds.

use crate::exc::ExcType;
use crate::frame::FrameError;
use crate::fs_error::MountError;
use crate::mount_table::{
    insert_position, law_insertion_keeps_order, law_new_mounts_stand_by_length, longest_first, mount_error, routed,
    HostDirectory, Mount, MountCallOutcome, MountMode, MountTable, MountView,
    OsCall, OverlayState, DEFAULT_MEMORY_USAGE_LIMIT,
};
use crate::path_security::normalized;
use crate::proto::{
    first_refused, monty_version, requirement_message, validate_requirements, version_text, Configure,
    ExtFunctionResult, Feed, FunctionCall, MontyObject, NameLookupResult, NamedValue, ParentRequest, PrintStream,
    RaisedException, Received, RequestKind, ResourceLimits,
};
use crate::text::{cat2, cat3, cat5, decimal, decimal_of, utf8_len, views};
use vstd::prelude::*;

verus! {

/// Largest duration, in nanoseconds.
pub const MAX_NANOS: u128 = 18_446_744_073_709_551_615_999_999_999;

/// Arguments for the REPL session a checkout creates.
pub struct ReplConfig {
    /// Script name used in tracebacks and type-check diagnostics.
    pub script_name: String,
    /// Sandbox resource limits enforced inside the worker.
    pub limits: Option<ResourceLimits>,
    /// Type-check every fed snippet before executing it.
    pub type_check: bool,
    /// Stub declarations made available to type checking.
    pub type_check_stubs: Option<String>,
    /// Truncation of operands in failed `assert` messages; 0 turns them off.
    pub assert_message_annotations: u32,
}

/// The default truncation of operands in failed `assert` messages, in bytes.
pub const DEFAULT_ASSERT_BYTES: u32 = 120;

impl Default for ReplConfig {
    fn default() -> (r: ReplConfig)
        ensures
            r.script_name@ == "main.py"@,
            r.limits is None,
            !r.type_check,
            r.type_check_stubs is None,
            r.assert_message_annotations == DEFAULT_ASSERT_BYTES,
    {
        ReplConfig {
            script_name: "main.py".to_owned(),
            limits: None,
            type_check: false,
            type_check_stubs: None,
            assert_message_annotations: DEFAULT_ASSERT_BYTES,
        }
    }
}

/// Access mode for a `MountSpec`.
#[derive(Clone, Copy, Debug, PartialEq, Eq, Structural)]
pub enum MountSpecMode {
    ReadOnly,
    ReadWrite,
    /// Copy-on-write overlay in memory; writes are discarded when the feed ends.
    Overlay,
}

/// A host directory mounted into the sandbox for one feed.
pub struct MountSpec {
    /// Absolute virtual POSIX path inside the sandbox, e.g. `/mnt/data`.
    pub virtual_path: String,
    /// Host directory to expose.
    pub host_path: String,
    /// Access mode.
    pub mode: MountSpecMode,
    /// Cap on total bytes written through this mount.
    pub write_bytes_limit: Option<u64>,
    /// Aggregate budget for retained overlay data and transient results.
    pub memory_usage_limit: u64,
}

impl MountSpec {
    /// Creates mount configuration with the default memory budget and no
    /// cumulative write limit.
    #[must_use]
    pub fn new(virtual_path: String, host_path: String, mode: MountSpecMode) -> (r: MountSpec)
        ensures
            r == (MountSpec {
                virtual_path,
                host_path,
                mode,
                write_bytes_limit: None,
                memory_usage_limit: DEFAULT_MEMORY_USAGE_LIMIT,
            }),
    {
        MountSpec {
            virtual_path,
            host_path,
            mode,
            write_bytes_limit: None,
            memory_usage_limit: DEFAULT_MEMORY_USAGE_LIMIT,
        }
    }
}

/// How a protocol turn ended.
#[derive(Debug)]
pub enum TurnEvent {
    /// The sandbox called an external function.
    FunctionCall {
        function_name: String,
        args: Vec<MontyObject>,
        kwargs: Vec<(MontyObject, MontyObject)>,
        call_id: u32,
        method_call: bool,
    },
    /// The sandbox performed an OS operation no mount handled.
    OsCall {
        function_name: String,
        args: Vec<MontyObject>,
        kwargs: Vec<(MontyObject, MontyObject)>,
        call_id: u32,
        /// The exception the sandbox would raise if nothing handles this call.
        not_handled_error: Option<RaisedException>,
    },
    /// The sandbox read an undefined name.
    NameLookup { name: String },
    /// Every sandbox task is blocked on external futures.
    ResolveFutures { pending_call_ids: Vec<u32> },
    /// The fed snippet completed with this value.
    Complete(MontyObject),
}

/// A value to be sent; `too_deep` when it nests too deeply for the wire.
#[derive(Debug)]
pub struct Outgoing {
    pub value: MontyObject,
    pub too_deep: bool,
}

/// The caller's answer to a suspended call.
#[derive(Debug)]
pub enum ResumeValue {
    /// The call returned this value.
    Return(Outgoing),
    /// The call raised this exception.
    Error(RaisedException),
    /// The call is asynchronous.
    Future,
    /// No handler exists for the called name.
    NotFound,
}

/// How a worker process ended, as the operating system reported it.
#[derive(Debug)]
pub struct ExitStatus {
    /// Its exit code; absent where a signal ended it.
    pub code: Option<i32>,
    /// The status in words.
    pub text: String,
}

/// Failure of a pool operation.
#[derive(Debug)]
pub enum PoolError {
    /// The worker or the caller broke the protocol.
    Protocol(String),
    /// Sandboxed code raised; the session stays usable.
    Runtime(RaisedException),
    /// A snippet did not type-check; the session stays usable.
    Typing(String),
    /// The worker outlived its deadline.
    Timeout { timeout: u128 },
    /// The worker died.
    Crashed { status: Option<ExitStatus>, context: String },
    /// No worker became free in time.
    Exhausted,
    /// A worker could not be started.
    Spawn(String),
    /// The checkout has no worker any more.
    Finished,
}

impl PoolError {
    /// Errors that leave the session usable.
    pub open spec fn keeps_session(self) -> bool {
        self is Runtime || self is Typing
    }

    /// A protocol error with this text.
    pub open spec fn is_protocol(self, message: Seq<char>) -> bool {
        self is Protocol && self->Protocol_0@ == message
    }

    /// A runtime exception with this text and no traceback.
    pub open spec fn is_runtime(self, exc_type: ExcType, message: Seq<char>) -> bool {
        self is Runtime && self->Runtime_0.says(exc_type, message)
    }
}

/// Which kind of suspension is awaiting an answer.
#[derive(Debug)]
pub enum AwaitedAnswer {
    Call { call_id: u32, function_name: String },
    NameLookup,
    Futures,
}

/// Deadlines and transport of the pool.
#[derive(Clone, Copy, Debug, PartialEq, Eq, Structural)]
pub struct PoolLimits {
    /// Deadline of every request.
    pub request_timeout: Option<u128>,
    /// Added to a session's own time limit before the worker is killed.
    pub duration_limit_grace: Option<u128>,
    /// Workers sit behind a websocket and serve one session only.
    pub websocket: bool,
}

/// An OS call from the worker, with what surfacing it needs.
#[derive(Debug)]
pub struct HostOsCall {
    pub call: OsCall,
    pub args: Vec<MontyObject>,
    pub kwargs: Vec<(MontyObject, MontyObject)>,
    /// What the sandbox raises if nothing handles the call.
    pub not_handled_error: RaisedException,
}

/// The payload of an OS call event.
#[derive(Debug)]
pub enum OsCallPayload {
    Missing,
    /// A call announced again after a restore: its arguments are gone.
    Consumed,
    /// A payload that does not decode, for the reason given.
    Invalid(String),
    Call(HostOsCall),
}

/// What a worker reports. Payloads that do not decode carry the reason.
#[derive(Debug)]
pub enum WorkerEventKind {
    Okay,
    Print { stream: PrintStream, text: String },
    Complete(Result<MontyObject, String>),
    Error(Received<RaisedException>),
    TypingError(String),
    FatalError(String),
    FunctionCall(FunctionCall),
    OsCall { call_id: u32, call: OsCallPayload },
    NameLookup(String),
    ResolveFutures(Vec<u32>),
    DumpResult(Vec<u8>),
}

/// An event of a worker.
#[derive(Debug)]
pub struct WorkerEvent {
    pub kind: Option<WorkerEventKind>,
    pub restored_script_name: Option<String>,
    pub total_execution_micros: u64,
    pub max_duration_micros: Option<u64>,
}

/// Classification of a turn-ending event.
#[derive(Debug)]
pub enum ControlEvent {
    Turn(TurnEvent),
    Okay,
    Dump(Vec<u8>),
}

/// A request with the deadline of its turn.
#[derive(Debug)]
pub struct TurnRequest {
    pub request: ParentRequest,
    pub deadline: Option<u128>,
}

/// The worker time that is left to a turn.
#[derive(Clone, Copy, Debug, PartialEq, Eq, Structural)]
pub struct Turn {
    pub remaining: Option<u128>,
}

/// What comes next in a turn.
#[derive(Debug)]
pub enum TurnStep {
    /// Hand this output on and wait for the next event.
    Print { stream: PrintStream, text: String },
    /// Let the mount at `index` execute the call; hand the result to `serviced`.
    Execute { index: usize, call_id: u32, call: HostOsCall },
    /// Turn the error into an exception; hand it to `serviced`.
    Refuse { call_id: u32, error: MountError },
    /// Arm the watchdog and send this answer, then wait for the next event;
    /// hand a failure to `resume_failed`.
    Resume { call_id: u32, result: ExtFunctionResult, deadline: Option<u128> },
    /// Kill the worker and hand what became of it to `poison`.
    Poison(String),
    /// Disarm the watchdog and hand the outcome to `finish_request_turn`.
    End(Result<ControlEvent, PoolError>),
    /// Disarm the watchdog and fail with this; the worker was sent nothing.
    Unsent(PoolError),
}

/// A worker on its way back to the pool, with the number of sessions it has
/// served.
pub struct Released<W> {
    pub worker: W,
    pub checkouts_served: u32,
}

/// What ending a session takes.
pub enum FinishStep<W> {
    /// Give the worker back to the pool.
    Release(Option<Released<W>>),
    /// Run this turn; hand its outcome to `finished`.
    Send(TurnRequest),
}

/// One worker dedicated to one REPL session.
pub struct Checkout<W> {
    /// `None` after the session ended or the worker was discarded.
    pub worker: Option<W>,
    /// Process id of the worker, when it is a local process.
    pub worker_pid: Option<u32>,
    /// How many sessions the worker had served before this one.
    pub checkouts_served: u32,
    /// Whether the place of a discarded worker has been given back to the pool.
    pub capacity_freed: bool,
    pub limits: PoolLimits,
    /// The suspension awaiting an answer, when mid-feed.
    pub pending: Option<AwaitedAnswer>,
    /// The session's own time limit, when known.
    pub duration_budget: Option<u128>,
    /// Execution time as last reported by the worker; it never goes back.
    pub reported_execution: u128,
    /// The deadline armed for the most recent turn.
    pub armed_deadline: Option<u128>,
    /// The script name that a restore adopted.
    pub restored_script_name: Option<String>,
    /// Mounts of the feed in flight.
    pub feed_mounts: Option<MountTable>,
}

// ---------------------------------------------------------------------------
// Deadlines
// ---------------------------------------------------------------------------

/// The tighter of two optional deadlines.
pub open spec fn tighter(a: Option<u128>, b: Option<u128>) -> Option<u128> {
    match (a, b) {
        (Some(x), Some(y)) => Some(if x <= y { x } else { y }),
        (Some(x), None) => Some(x),
        (None, y) => y,
    }
}

/// The tighter of two optional deadlines (`None` means no deadline).
pub fn min_deadline(a: Option<u128>, b: Option<u128>) -> (r: Option<u128>)
    ensures
        r == tighter(a, b),
{
    match (a, b) {
        (Some(x), Some(y)) => if x <= y { Some(x) } else { Some(y) },
        (Some(x), None) => Some(x),
        (None, y) => y,
    }
}

/// `a - b`, but not below zero.
pub open spec fn minus(a: u128, b: u128) -> u128 {
    if a >= b { (a - b) as u128 } else { 0 }
}

fn saturating_minus(a: u128, b: u128) -> (r: u128)
    ensures
        r == minus(a, b),
{
    if a >= b { a - b } else { 0 }
}

/// Microseconds as nanoseconds.
pub fn from_micros(micros: u64) -> (r: u128)
    ensures
        r == micros as nat * 1000,
        r <= MAX_NANOS,
{
    (micros as u128) * 1000
}

/// What is left of an allowance after some worker time.
pub open spec fn allowance_after(remaining: Option<u128>, elapsed: u128) -> Option<u128> {
    match remaining {
        Some(allowance) => Some(minus(allowance, elapsed)),
        None => None,
    }
}

/// What is left of an allowance after several stretches of worker time.
pub open spec fn allowance_after_all(remaining: Option<u128>, elapsed: Seq<u128>) -> Option<u128>
    decreases elapsed.len(),
{
    if elapsed.len() == 0 {
        remaining
    } else {
        allowance_after(allowance_after_all(remaining, elapsed.drop_last()), elapsed.last())
    }
}

/// The sum of several stretches of time.
pub open spec fn total(elapsed: Seq<u128>) -> nat
    decreases elapsed.len(),
{
    if elapsed.len() == 0 { 0 } else { total(elapsed.drop_last()) + elapsed.last() as nat }
}

/// A worker that has its calls serviced over and over gains no time: all its
/// stretches together are taken from the one allowance of the turn.
pub proof fn law_mount_calls_do_not_extend_a_turn(deadline: u128, elapsed: Seq<u128>)
    ensures
        allowance_after_all(Some(deadline), elapsed) is Some,
        total(elapsed) <= deadline ==> allowance_after_all(Some(deadline), elapsed)->Some_0 == deadline - total(elapsed),
        total(elapsed) >= deadline ==> allowance_after_all(Some(deadline), elapsed)->Some_0 == 0,
    decreases elapsed.len(),
{
    if elapsed.len() > 0 {
        law_mount_calls_do_not_extend_a_turn(deadline, elapsed.drop_last());
    }
}

/// A combined deadline is never later than either of its parts.
pub proof fn law_tighter_deadline_bounds_both(a: Option<u128>, b: Option<u128>)
    ensures
        a is Some ==> tighter(a, b) is Some && tighter(a, b)->Some_0 <= a->Some_0,
        b is Some ==> tighter(a, b) is Some && tighter(a, b)->Some_0 <= b->Some_0,
        tighter(a, b) is Some ==> tighter(a, b) == a || tighter(a, b) == b,
        tighter(a, b) == tighter(b, a),
{
}

// ---------------------------------------------------------------------------
// Mounts
// ---------------------------------------------------------------------------

/// The access mode of a mount made for a feed; an overlay starts out empty.
pub open spec fn feed_mode(mode: MountSpecMode) -> MountMode {
    match mode {
        MountSpecMode::ReadOnly => MountMode::ReadOnly,
        MountSpecMode::ReadWrite => MountMode::ReadWrite,
        MountSpecMode::Overlay => MountMode::OverlayMemory(OverlayState { memory_usage: 0 }),
    }
}

/// The mount made from a specification over a directory that was found.
pub open spec fn feed_mount(spec_: MountSpec, host: HostDirectory) -> MountView {
    MountView {
        virtual_path: normalized(spec_.virtual_path@),
        host_path: host->Found_0@,
        mode: feed_mode(spec_.mode),
        write_bytes_used: 0,
        write_bytes_limit: spec_.write_bytes_limit,
        memory_usage_limit: spec_.memory_usage_limit,
    }
}

/// The mounts of a feed, added one after the other, or the message of the
/// first that is unusable.
pub open spec fn feed_table(specs: Seq<(MountSpec, HostDirectory)>) -> Result<Seq<MountView>, Seq<char>>
    decreases specs.len(),
{
    if specs.len() == 0 {
        Ok(Seq::empty())
    } else {
        match feed_table(specs.drop_last()) {
            Err(message) => Err(message),
            Ok(mounts) => {
                let (spec_, host) = specs.last();
                match mount_error(spec_.virtual_path@, spec_.host_path@, host) {
                    Some(message) => Err(message),
                    None => {
                        let m = feed_mount(spec_, host);
                        Ok(mounts.insert(insert_position(mounts, utf8_len(m.virtual_path), 0), m))
                    },
                }
            },
        }
    }
}

proof fn lemma_feed_table_error(specs: Seq<(MountSpec, HostDirectory)>, k: int)
    requires
        0 <= k <= specs.len(),
        feed_table(specs.take(k)) is Err,
    ensures
        feed_table(specs) == feed_table(specs.take(k)),
    decreases specs.len() - k,
{
    if k < specs.len() {
        assert(specs.take(k + 1).drop_last() =~= specs.take(k));
        lemma_feed_table_error(specs, k + 1);
    } else {
        assert(specs.take(k) =~= specs);
    }
}

/// The failure of an unusable mount: a `ValueError` that leaves the session
/// usable.
fn unusable_mount(err: MountError) -> (r: PoolError)
    requires
        err is InvalidMount,
    ensures
        r.is_runtime(ExcType::ValueError, err->InvalidMount_0@),
{
    match err {
        MountError::InvalidMount(message) => runtime_error(ExcType::ValueError, message),
        _ => PoolError::Finished,
    }
}

/// Builds the mount table for one feed from its specifications, each with its
/// host directory as it was found; no table when there are none. An unusable
/// mount is a session-preserving runtime error.
pub fn build_mount_table(mounts: Vec<(MountSpec, HostDirectory)>) -> (r: Result<Option<MountTable>, PoolError>)
    ensures
        mounts@.len() == 0 ==> r is Ok && r->Ok_0 is None,
        mounts@.len() > 0 ==> match feed_table(mounts@) {
            Ok(views) => r is Ok && r->Ok_0 is Some && r->Ok_0->Some_0@ == views && r->Ok_0->Some_0.wf(),
            Err(message) => r is Err && r->Err_0.is_runtime(ExcType::ValueError, message),
        },
{
    if mounts.len() == 0 {
        return Ok(None);
    }
    let ghost all = mounts@;
    let mut table: MountTable = MountTable::new();
    proof {
        assert(all.take(0) =~= Seq::<(MountSpec, HostDirectory)>::empty());
    }
    for entry in it: mounts
        invariant
            it.seq() == all,
            table.wf(),
            feed_table(all.take(it.index() as int)) == Ok::<Seq<MountView>, Seq<char>>(table@),
    {
        let ghost i = it.index() as int;
        proof {
            assert(all.take(i + 1).drop_last() =~= all.take(i));
            assert(all.take(i + 1).last() == all[i]);
        }
        let (spec_, host) = entry;
        let mode: MountMode = match spec_.mode {
            MountSpecMode::ReadOnly => MountMode::ReadOnly,
            MountSpecMode::ReadWrite => MountMode::ReadWrite,
            MountSpecMode::Overlay => MountMode::OverlayMemory(OverlayState { memory_usage: 0 }),
        };
        match Mount::new(spec_.virtual_path.as_str(), spec_.host_path.as_str(), host, mode, spec_.write_bytes_limit) {
            Err(err) => {
                proof {
                    lemma_feed_table_error(all, i + 1);
                }
                return Err(unusable_mount(err));
            },
            Ok(mount) => {
                let mount: Mount = mount.with_memory_usage_limit(spec_.memory_usage_limit);
                table.push_mount(mount);
            },
        }
    }
    proof {
        assert(all.take(all.len() as int) =~= all);
    }
    Ok(Some(table))
}

// ---------------------------------------------------------------------------
// What each event leads to
// ---------------------------------------------------------------------------

/// The checkout after the accounting of an event has been taken in.
pub open spec fn noted<W>(c: Checkout<W>, e: WorkerEvent) -> Checkout<W> {
    let reported = (e.total_execution_micros as nat * 1000) as u128;
    Checkout {
        reported_execution: if c.reported_execution >= reported { c.reported_execution } else { reported },
        duration_budget: match (c.duration_budget, e.max_duration_micros) {
            (Some(budget), _) => Some(budget),
            (None, Some(micros)) => Some((micros as nat * 1000) as u128),
            (None, None) => None,
        },
        ..c
    }
}

/// The checkout after the accounting and script name of an event have been taken in.
pub open spec fn after_event<W>(c: Checkout<W>, e: WorkerEvent) -> Checkout<W> {
    Checkout {
        restored_script_name: if e.restored_script_name is Some { e.restored_script_name } else { c.restored_script_name },
        ..noted(c, e)
    }
}

/// The checkout without its worker, suspension and mounts. A worker that was
/// there is discarded, which frees its place in the pool.
pub open spec fn without_worker<W>(c: Checkout<W>) -> Checkout<W> {
    Checkout {
        worker: None,
        pending: None,
        feed_mounts: None,
        capacity_freed: c.capacity_freed || c.worker is Some,
        ..c
    }
}

/// The checkout after its worker has gone back to the pool.
pub open spec fn handed_back<W>(c: Checkout<W>) -> Checkout<W> {
    Checkout { worker: None, ..c }
}

/// The checkout after its feed has ended.
pub open spec fn feed_ended<W>(c: Checkout<W>) -> Checkout<W> {
    Checkout { pending: None, feed_mounts: None, ..c }
}

/// The worker is discarded and the turn ends with a protocol error.
pub open spec fn violates<W>(pre: Checkout<W>, post: Checkout<W>, step: TurnStep, message: Seq<char>) -> bool {
    &&& post == without_worker(pre)
    &&& step is End
    &&& step->End_0 is Err
    &&& step->End_0->Err_0.is_protocol(message)
}

/// The turn ends with this event, while its suspension awaits an answer.
pub open spec fn suspends<W>(
    pre: Checkout<W>,
    post: Checkout<W>,
    step: TurnStep,
    awaited: AwaitedAnswer,
    turn_event: TurnEvent,
) -> bool {
    &&& post == (Checkout { pending: Some(awaited), ..pre })
    &&& step == TurnStep::End(Ok(ControlEvent::Turn(turn_event)))
}

/// The OS call is handed to the caller.
pub open spec fn surfaces<W>(pre: Checkout<W>, post: Checkout<W>, step: TurnStep, call_id: u32, host: HostOsCall) -> bool {
    suspends(
        pre,
        post,
        step,
        AwaitedAnswer::Call { call_id, function_name: host.call.function_name },
        TurnEvent::OsCall {
            function_name: host.call.function_name,
            args: host.args,
            kwargs: host.kwargs,
            call_id,
            not_handled_error: Some(host.not_handled_error),
        },
    )
}

/// A call announced again is handed to the caller without its arguments.
pub open spec fn resurfaces<W>(pre: Checkout<W>, post: Checkout<W>, step: TurnStep, call_id: u32) -> bool {
    &&& step is End
    &&& step->End_0 is Ok
    &&& step->End_0->Ok_0 is Turn
    &&& match step->End_0->Ok_0->Turn_0 {
        TurnEvent::OsCall { function_name, args, kwargs, call_id: id, not_handled_error } => {
            &&& function_name@ == Seq::<char>::empty()
            &&& args@.len() == 0
            &&& kwargs@.len() == 0
            &&& id == call_id
            &&& not_handled_error is None
            &&& post == (Checkout { pending: Some(AwaitedAnswer::Call { call_id, function_name }), ..pre })
        },
        _ => false,
    }
}

/// What an OS call leads to: the mounts of the feed get it first.
pub open spec fn routes_os_call<W>(
    pre: Checkout<W>,
    post: Checkout<W>,
    call_id: u32,
    payload: OsCallPayload,
    step: TurnStep,
) -> bool {
    match payload {
        OsCallPayload::Missing => violates(pre, post, step, "OsCall event with no call"@),
        OsCallPayload::Invalid(err) => violates(pre, post, step, "invalid OS call payload: "@ + err@),
        OsCallPayload::Consumed => resurfaces(pre, post, step, call_id),
        OsCallPayload::Call(host) => match pre.feed_mounts {
            None => surfaces(pre, post, step, call_id, host),
            Some(table) => match routed(table@, host.call) {
                MountCallOutcome::NotHandled(_) => surfaces(pre, post, step, call_id, host),
                MountCallOutcome::Execute(index, _) => post == pre && index < table@.len() && step == (
                TurnStep::Execute { index, call_id, call: host }),
                MountCallOutcome::Refused(err) => {
                    &&& post == pre
                    &&& step is Refuse
                    &&& step->Refuse_call_id == call_id
                    &&& step->error@ == err@
                },
            },
        },
    }
}

/// What an event of the worker leads to.
pub open spec fn receives<W>(pre: Checkout<W>, post: Checkout<W>, e: WorkerEvent, step: TurnStep) -> bool {
    let mid = after_event(pre, e);
    match e.kind {
        None => violates(mid, post, step, "unexpected event"@),
        Some(WorkerEventKind::Print { stream, text }) => post == mid && step == (TurnStep::Print { stream, text }),
        Some(WorkerEventKind::FunctionCall(call)) => suspends(
            mid,
            post,
            step,
            AwaitedAnswer::Call { call_id: call.call_id, function_name: call.function_name },
            TurnEvent::FunctionCall {
                function_name: call.function_name,
                args: call.args,
                kwargs: call.kwargs,
                call_id: call.call_id,
                method_call: call.method_call,
            },
        ),
        Some(WorkerEventKind::OsCall { call_id, call }) => routes_os_call(mid, post, call_id, call, step),
        Some(WorkerEventKind::NameLookup(name)) => suspends(
            mid,
            post,
            step,
            AwaitedAnswer::NameLookup,
            TurnEvent::NameLookup { name },
        ),
        Some(WorkerEventKind::ResolveFutures(ids)) => suspends(
            mid,
            post,
            step,
            AwaitedAnswer::Futures,
            TurnEvent::ResolveFutures { pending_call_ids: ids },
        ),
        Some(WorkerEventKind::Complete(Ok(value))) => post == feed_ended(mid) && step == TurnStep::End(
            Ok(ControlEvent::Turn(TurnEvent::Complete(value))),
        ),
        Some(WorkerEventKind::Complete(Err(err))) => violates(
            mid,
            post,
            step,
            "invalid payload from worker: "@ + err@,
        ),
        Some(WorkerEventKind::Error(Received::Missing)) => violates(mid, post, step, "error event with no exception"@),
        Some(WorkerEventKind::Error(Received::Invalid(err))) => violates(
            mid,
            post,
            step,
            "invalid exception payload: "@ + err@,
        ),
        Some(WorkerEventKind::Error(Received::Value(exc))) => post == feed_ended(mid) && step == TurnStep::End(
            Err(PoolError::Runtime(exc)),
        ),
        Some(WorkerEventKind::TypingError(diagnostics)) => post == feed_ended(mid) && step == TurnStep::End(
            Err(PoolError::Typing(diagnostics)),
        ),
        Some(WorkerEventKind::Okay) => post == mid && step == TurnStep::End(Ok(ControlEvent::Okay)),
        Some(WorkerEventKind::DumpResult(state)) => post == mid && step == TurnStep::End(Ok(ControlEvent::Dump(state))),
        Some(WorkerEventKind::FatalError(message)) => violates(
            mid,
            post,
            step,
            "worker reported fatal error: "@ + message@,
        ),
    }
}

/// The time left to the turn after an event: an OS call stops the worker, so
/// the stretch it just ran is taken off.
pub open spec fn turn_after(turn: Turn, e: WorkerEvent, elapsed: u128) -> Turn {
    match e.kind {
        Some(WorkerEventKind::OsCall { .. }) => Turn { remaining: allowance_after(turn.remaining, elapsed) },
        _ => turn,
    }
}

/// The routed call of an event names the path it works on.
pub open spec fn event_wf(e: WorkerEvent) -> bool {
    match e.kind {
        Some(WorkerEventKind::OsCall { call: OsCallPayload::Call(host), .. }) => host.call.wf(),
        _ => true,
    }
}

fn protocol_error(before: &str, detail: &str) -> (r: PoolError)
    ensures
        r.is_protocol(before@ + detail@),
{
    PoolError::Protocol(cat2(before, detail))
}

fn runtime_error(exc_type: ExcType, message: String) -> (r: PoolError)
    ensures
        r.is_runtime(exc_type, message@),
{
    PoolError::Runtime(RaisedException::new(exc_type, message))
}

/// Whether one of the values cannot be sent.
pub open spec fn any_too_deep(values: Seq<(String, Outgoing)>) -> bool {
    exists|i: int| 0 <= i < values.len() && (#[trigger] values[i]).1.too_deep
}

/// Rejects values too deeply nested for the wire with a session-preserving
/// runtime error.
pub fn ensure_sendable(values: &Vec<(String, Outgoing)>) -> (r: Result<(), PoolError>)
    ensures
        r is Ok <==> !any_too_deep(values@),
        r is Err ==> r->Err_0.is_runtime(ExcType::RuntimeError, "Max input depth exceeded"@),
{
    let mut i: usize = 0;
    while i < values.len()
        invariant
            i <= values@.len(),
            forall|j: int| 0 <= j < i ==> !(#[trigger] values@[j]).1.too_deep,
        decreases values@.len() - i,
    {
        if values[i].1.too_deep {
            return Err(runtime_error(ExcType::RuntimeError, "Max input depth exceeded".to_owned()));
        }
        i = i + 1;
    }
    Ok(())
}

/// Converts a requirement-validation failure into a session-preserving `ValueError`.
pub fn invalid_requirement(message: String) -> (r: PoolError)
    ensures
        r.is_runtime(ExcType::ValueError, message@),
{
    runtime_error(ExcType::ValueError, message)
}

/// The inputs of a feed as the worker gets them.
pub open spec fn wire_inputs(inputs: Seq<(String, Outgoing)>) -> Seq<NamedValue> {
    inputs.map_values(
        |input: (String, Outgoing)| NamedValue { name: input.0, value: Received::Value(input.1.value) },
    )
}

/// The worker gets as many inputs as were given, in the same order, each under
/// its own name and with its own value.
pub proof fn law_inputs_go_out_as_given(inputs: Seq<(String, Outgoing)>)
    ensures
        wire_inputs(inputs).len() == inputs.len(),
        forall|i: int|
            0 <= i < inputs.len() ==> (#[trigger] wire_inputs(inputs)[i]).name == inputs[i].0 && wire_inputs(inputs)[i].value
                == Received::Value(inputs[i].1.value),
{
}

fn to_wire_inputs(inputs: Vec<(String, Outgoing)>) -> (r: Vec<NamedValue>)
    ensures
        r@ == wire_inputs(inputs@),
        r@.len() == inputs@.len(),
        forall|i: int|
            0 <= i < inputs@.len() ==> (#[trigger] r@[i]).name == inputs@[i].0 && r@[i].value == Received::Value(
                inputs@[i].1.value,
            ),
{
    let ghost all = inputs@;
    let mut out: Vec<NamedValue> = Vec::new();
    for input in it: inputs
        invariant
            it.seq() == all,
            out@ == wire_inputs(all.take(it.index() as int)),
    {
        let ghost i = it.index() as int;
        proof {
            assert(wire_inputs(all.take(i + 1)) =~= wire_inputs(all.take(i)).push(
                NamedValue { name: all[i].0, value: Received::Value(all[i].1.value) },
            ));
        }
        let (name, outgoing) = input;
        out.push(NamedValue { name, value: Received::Value(outgoing.value) });
    }
    proof {
        assert(all.take(all.len() as int) =~= all);
    }
    out
}

/// The result of a future as the worker gets it.
pub open spec fn future_result(value: ResumeValue) -> Option<ExtFunctionResult> {
    match value {
        ResumeValue::Return(outgoing) => if outgoing.too_deep { None } else { Some(ExtFunctionResult::Return(outgoing.value)) },
        ResumeValue::Error(exc) => Some(ExtFunctionResult::Error(exc)),
        _ => None,
    }
}

/// Every result resolves its future.
pub open spec fn futures_resolve(results: Seq<(u32, ResumeValue)>) -> bool {
    forall|i: int| 0 <= i < results.len() ==> future_result((#[trigger] results[i]).1) is Some
}

/// The first result that does not resolve its future.
pub open spec fn first_unresolved(results: Seq<(u32, ResumeValue)>) -> int
    decreases results.len(),
{
    if results.len() == 0 || future_result(results[0].1) is None {
        0
    } else {
        1 + first_unresolved(results.skip(1))
    }
}

/// The results of futures as the worker gets them.
pub open spec fn wire_futures(results: Seq<(u32, ResumeValue)>) -> Seq<(u32, ExtFunctionResult)> {
    results.map_values(|r: (u32, ResumeValue)| (r.0, future_result(r.1)->Some_0))
}

/// Results can be sent exactly where each is an exception or a value that can
/// be sent; what is sent is then as many results, in the same order, each
/// under its own call, and each the very value or exception that was given.
pub proof fn law_future_results_go_out_as_given(results: Seq<(u32, ResumeValue)>)
    ensures
        futures_resolve(results) <==> forall|i: int|
            0 <= i < results.len() ==> match (#[trigger] results[i]).1 {
                ResumeValue::Return(outgoing) => !outgoing.too_deep,
                ResumeValue::Error(_) => true,
                _ => false,
            },
        futures_resolve(results) ==> {
            let wire = wire_futures(results);
            &&& wire.len() == results.len()
            &&& forall|i: int|
                0 <= i < results.len() ==> (#[trigger] wire[i]).0 == results[i].0 && match results[i].1 {
                    ResumeValue::Return(outgoing) => wire[i].1 == ExtFunctionResult::Return(outgoing.value),
                    ResumeValue::Error(exc) => wire[i].1 == ExtFunctionResult::Error(exc),
                    _ => false,
                }
        },
{
    if futures_resolve(results) {
        let wire = wire_futures(results);
        assert forall|i: int| 0 <= i < results.len() implies match (#[trigger] results[i]).1 {
            ResumeValue::Return(outgoing) => !outgoing.too_deep,
            ResumeValue::Error(_) => true,
            _ => false,
        } by {
            assert(future_result(results[i].1) is Some);
        }
        assert forall|i: int| 0 <= i < results.len() implies (#[trigger] wire[i]).0 == results[i].0 && match results[i].1 {
            ResumeValue::Return(outgoing) => wire[i].1 == ExtFunctionResult::Return(outgoing.value),
            ResumeValue::Error(exc) => wire[i].1 == ExtFunctionResult::Error(exc),
            _ => false,
        } by {
            assert(future_result(results[i].1) is Some);
        }
    }
}

/// A result that cannot be sent is reported for the first such result: those
/// before it could all be sent.
pub proof fn law_first_unsendable_result_is_reported(results: Seq<(u32, ResumeValue)>)
    requires
        !futures_resolve(results),
    ensures
        ({
            let k = first_unresolved(results);
            &&& 0 <= k < results.len()
            &&& match results[k].1 {
                ResumeValue::Return(outgoing) => outgoing.too_deep,
                ResumeValue::Error(_) => false,
                _ => true,
            }
            &&& forall|i: int|
                0 <= i < k ==> match (#[trigger] results[i]).1 {
                    ResumeValue::Return(outgoing) => !outgoing.too_deep,
                    ResumeValue::Error(_) => true,
                    _ => false,
                }
        }),
    decreases results.len(),
{
    if results.len() > 0 && future_result(results[0].1) is Some {
        let rest = results.skip(1);
        let bad = choose|i: int| 0 <= i < results.len() && future_result((#[trigger] results[i]).1) is None;
        assert(rest[bad - 1] == results[bad]);
        law_first_unsendable_result_is_reported(rest);
        let k = first_unresolved(results);
        assert(rest[k - 1] == results[k]);
        assert forall|i: int| 0 <= i < k implies match (#[trigger] results[i]).1 {
            ResumeValue::Return(outgoing) => !outgoing.too_deep,
            ResumeValue::Error(_) => true,
            _ => false,
        } by {
            if i > 0 {
                assert(rest[i - 1] == results[i]);
            }
        }
    }
}

/// What is said of a result that does not resolve its future.
pub open spec fn is_future_error(err: PoolError, call_id: u32, value: ResumeValue) -> bool {
    if value is Return {
        err.is_runtime(ExcType::RuntimeError, "Max input depth exceeded"@)
    } else {
        err.is_protocol("future "@ + decimal(call_id as nat) + " must resolve to Return or Error"@)
    }
}

fn to_wire_futures(results: Vec<(u32, ResumeValue)>) -> (r: Result<Vec<(u32, ExtFunctionResult)>, PoolError>)
    ensures
        r is Ok <==> futures_resolve(results@),
        r is Ok ==> r->Ok_0@ == wire_futures(results@),
        r is Ok ==> r->Ok_0@.len() == results@.len() && forall|i: int|
            0 <= i < results@.len() ==> (#[trigger] r->Ok_0@[i]).0 == results@[i].0 && match results@[i].1 {
                ResumeValue::Return(outgoing) => r->Ok_0@[i].1 == ExtFunctionResult::Return(outgoing.value),
                ResumeValue::Error(exc) => r->Ok_0@[i].1 == ExtFunctionResult::Error(exc),
                _ => false,
            },
        r is Err ==> ({
            let k = first_unresolved(results@);
            &&& 0 <= k < results@.len()
            &&& is_future_error(r->Err_0, results@[k].0, results@[k].1)
        }),
{
    let ghost all = results@;
    let mut out: Vec<(u32, ExtFunctionResult)> = Vec::new();
    proof {
        assert(all.skip(0) =~= all);
    }
    for result in it: results
        invariant
            it.seq() == all,
            out@ == wire_futures(all.take(it.index() as int)),
            forall|j: int| 0 <= j < it.index() ==> future_result((#[trigger] all[j]).1) is Some,
            first_unresolved(all) == it.index() + first_unresolved(all.skip(it.index() as int)),
    {
        let ghost i = it.index() as int;
        proof {
            assert(all.skip(i)[0] == all[i]);
            assert(all.skip(i).skip(1) =~= all.skip(i + 1));
            assert(wire_futures(all.take(i + 1)) =~= wire_futures(all.take(i)).push(
                (all[i].0, future_result(all[i].1)->Some_0),
            ));
        }
        let (call_id, value) = result;
        match value {
            ResumeValue::Return(outgoing) => {
                if outgoing.too_deep {
                    return Err(runtime_error(ExcType::RuntimeError, "Max input depth exceeded".to_owned()));
                }
                out.push((call_id, ExtFunctionResult::Return(outgoing.value)));
            },
            ResumeValue::Error(exc) => out.push((call_id, ExtFunctionResult::Error(exc))),
            _ => {
                return Err(
                    PoolError::Protocol(
                        cat3("future ", decimal_of(call_id as u64).as_str(), " must resolve to Return or Error"),
                    ),
                );
            },
        }
    }
    proof {
        assert(all.take(all.len() as int) =~= all);
    }
    Ok(out)
}

// ---------------------------------------------------------------------------
// The checkout
// ---------------------------------------------------------------------------

impl<W> Checkout<W> {
    /// Durations are ones that a clock can hold, and only the place of a worker
    /// that is gone has been freed.
    pub open spec fn wf(self) -> bool {
        &&& self.reported_execution <= MAX_NANOS
        &&& self.duration_budget is Some ==> self.duration_budget->Some_0 <= MAX_NANOS
        &&& self.limits.duration_limit_grace is Some ==> self.limits.duration_limit_grace->Some_0 <= MAX_NANOS
        &&& self.capacity_freed ==> self.worker is None
    }

    /// The time limit that is left, plus the grace, where both are known.
    pub open spec fn backstop(self) -> Option<u128> {
        match (self.duration_budget, self.limits.duration_limit_grace) {
            (Some(budget), Some(grace)) => Some((minus(budget, self.reported_execution) + grace) as u128),
            _ => None,
        }
    }

    /// The time limit that is left and the grace add up to a duration.
    pub open spec fn backstop_fits(self) -> bool {
        self.backstop() is Some ==> self.backstop()->Some_0 <= MAX_NANOS
    }

    /// The deadline of a turn in which sandboxed code runs.
    pub open spec fn execution_deadline(self) -> Option<u128> {
        tighter(self.limits.request_timeout, self.backstop())
    }

    /// A checkout over a fresh worker, with the request that configures it.
    pub fn create(worker: W, worker_pid: Option<u32>, checkouts_served: u32, limits: PoolLimits, repl: ReplConfig) -> (r: (
        Checkout<W>,
        TurnRequest,
    ))
        requires
            limits.duration_limit_grace is Some ==> limits.duration_limit_grace->Some_0 <= MAX_NANOS,
        ensures
            r.0.wf(),
            r.0 == (Checkout {
                worker: Some(worker),
                worker_pid,
                checkouts_served,
                capacity_freed: false,
                limits,
                pending: None,
                duration_budget: match repl.limits {
                    Some(l) => match l.max_duration_micros {
                        Some(micros) => Some((micros as nat * 1000) as u128),
                        None => None,
                    },
                    None => None,
                },
                reported_execution: 0,
                armed_deadline: None,
                restored_script_name: None,
                feed_mounts: None,
            }),
            r.1.deadline == limits.request_timeout,
            match r.1.request.kind {
                Some(RequestKind::Configure(configure)) => {
                    &&& configure.script_name == repl.script_name
                    &&& configure.limits == repl.limits
                    &&& configure.type_check == repl.type_check
                    &&& configure.type_check_stubs == repl.type_check_stubs
                    &&& configure.assert_message_annotations == Some(repl.assert_message_annotations)
                    &&& configure.monty_version@ == version_text()
                },
                _ => false,
            },
    {
        let duration_budget: Option<u128> = match &repl.limits {
            Some(l) => match l.max_duration_micros {
                Some(micros) => Some(from_micros(micros)),
                None => None,
            },
            None => None,
        };
        let request: ParentRequest = ParentRequest {
            kind: Some(
                RequestKind::Configure(
                    Configure {
                        script_name: repl.script_name,
                        limits: repl.limits,
                        type_check: repl.type_check,
                        type_check_stubs: repl.type_check_stubs,
                        assert_message_annotations: Some(repl.assert_message_annotations),
                        monty_version: monty_version(),
                    },
                ),
            ),
        };
        let checkout: Checkout<W> = Checkout {
            worker: Some(worker),
            worker_pid,
            checkouts_served,
            capacity_freed: false,
            limits,
            pending: None,
            duration_budget,
            reported_execution: 0,
            armed_deadline: None,
            restored_script_name: None,
            feed_mounts: None,
        };
        (checkout, TurnRequest { request, deadline: limits.request_timeout })
    }

    /// Requires the reply to a request to be an acknowledgement; `described`
    /// is the reply in words.
    pub fn acknowledged(&mut self, request_name: &str, reply: ControlEvent, described: &str) -> (r: Result<(), PoolError>)
        ensures
            r is Ok <==> reply is Okay,
            r is Ok ==> *final(self) == *old(self),
            r is Err ==> *final(self) == without_worker(*old(self)) && r->Err_0.is_protocol(
                "unexpected reply to "@ + request_name@ + ": "@ + described@,
            ),
    {
        match reply {
            ControlEvent::Okay => Ok(()),
            _ => {
                let before: String = cat3("unexpected reply to ", request_name, ": ");
                Err(self.protocol_violation(before.as_str(), described))
            },
        }
    }

    /// Sets out to restore a dumped session into the freshly configured worker.
    /// What the configuration established is forgotten and taken from the reply.
    pub fn restore(&mut self, state: Vec<u8>, mounts: Vec<(MountSpec, HostDirectory)>) -> (r: Result<
        TurnRequest,
        PoolError,
    >)
        requires
            old(self).wf(),
        ensures
            final(self).wf(),
            ({
                let blank = Checkout {
                    pending: None,
                    duration_budget: None,
                    reported_execution: 0,
                    restored_script_name: None,
                    ..*old(self)
                };
                &&& r is Ok <==> (mounts@.len() == 0 || feed_table(mounts@) is Ok)
                &&& r is Err ==> *final(self) == blank && r->Err_0.is_runtime(
                    ExcType::ValueError,
                    feed_table(mounts@)->Err_0,
                )
                &&& r is Ok ==> {
                    &&& *final(self) == (Checkout { feed_mounts: final(self).feed_mounts, ..blank })
                    &&& mounts_match(final(self).feed_mounts, mounts@)
                    &&& r->Ok_0 == (TurnRequest {
                        request: ParentRequest { kind: Some(RequestKind::Load(state)) },
                        deadline: old(self).limits.request_timeout,
                    })
                }
            }),
    {
        self.pending = None;
        self.duration_budget = None;
        self.reported_execution = 0;
        self.restored_script_name = None;
        match build_mount_table(mounts) {
            Err(err) => Err(err),
            Ok(table) => {
                self.feed_mounts = table;
                Ok(
                    TurnRequest {
                        request: ParentRequest { kind: Some(RequestKind::Load(state)) },
                        deadline: self.limits.request_timeout,
                    },
                )
            },
        }
    }

    /// Takes in the reply to a restore: the suspension announced again, if the
    /// dump was taken mid-feed, and the script name of the dump.
    pub fn restored(&mut self, reply: ControlEvent, described: &str) -> (r: Result<
        (Option<TurnEvent>, Option<String>),
        PoolError,
    >)
        ensures
            match reply {
                ControlEvent::Okay => {
                    &&& r == Ok::<(Option<TurnEvent>, Option<String>), PoolError>((None, old(self).restored_script_name))
                    &&& *final(self) == (Checkout { restored_script_name: None, ..*old(self) })
                },
                ControlEvent::Turn(event) => {
                    &&& r == Ok::<(Option<TurnEvent>, Option<String>), PoolError>(
                        (Some(event), old(self).restored_script_name),
                    )
                    &&& *final(self) == (Checkout { restored_script_name: None, ..*old(self) })
                },
                ControlEvent::Dump(_) => {
                    &&& r is Err
                    &&& r->Err_0.is_protocol("unexpected reply to Load: "@ + described@)
                    &&& *final(self) == without_worker(*old(self))
                },
            },
    {
        let event: Option<TurnEvent> = match reply {
            ControlEvent::Okay => None,
            ControlEvent::Turn(event) => Some(event),
            ControlEvent::Dump(_) => return Err(self.protocol_violation("unexpected reply to Load: ", described)),
        };
        let mut name: Option<String> = None;
        core::mem::swap(&mut self.restored_script_name, &mut name);
        Ok((event, name))
    }

    /// Sets out to execute one snippet against the session. A runtime error
    /// leaves the session usable; a feed while a suspension is awaiting an
    /// answer costs the worker.
    pub fn feed(
        &mut self,
        code: &str,
        inputs: Vec<(String, Outgoing)>,
        mounts: Vec<(MountSpec, HostDirectory)>,
        skip_type_check: bool,
    ) -> (r: Result<TurnRequest, PoolError>)
        requires
            old(self).wf(),
            old(self).backstop_fits(),
        ensures
            final(self).wf(),
            r is Ok <==> old(self).pending is None && !any_too_deep(inputs@) && (mounts@.len() == 0 || feed_table(
                mounts@,
            ) is Ok),
            r is Err && old(self).pending is Some ==> {
                &&& *final(self) == without_worker(*old(self))
                &&& r->Err_0.is_protocol("feed called while a suspension is awaiting an answer"@)
            },
            r is Err && old(self).pending is None ==> *final(self) == *old(self) && if any_too_deep(inputs@) {
                r->Err_0.is_runtime(ExcType::RuntimeError, "Max input depth exceeded"@)
            } else {
                r->Err_0.is_runtime(ExcType::ValueError, feed_table(mounts@)->Err_0)
            },
            r is Ok ==> {
                &&& *final(self) == (Checkout { feed_mounts: final(self).feed_mounts, ..*old(self) })
                &&& mounts_match(final(self).feed_mounts, mounts@)
                &&& r->Ok_0.deadline == old(self).execution_deadline()
                &&& match r->Ok_0.request.kind {
                    Some(RequestKind::Feed(feed)) => {
                        &&& feed.code@ == code@
                        &&& feed.inputs@ == wire_inputs(inputs@)
                        &&& feed.inputs@.len() == inputs@.len()
                        &&& forall|i: int|
                            0 <= i < inputs@.len() ==> (#[trigger] feed.inputs@[i]).name == inputs@[i].0
                                && feed.inputs@[i].value == Received::Value(inputs@[i].1.value)
                        &&& feed.skip_type_check == skip_type_check
                    },
                    _ => false,
                }
            },
    {
        if self.pending.is_some() {
            self.discard_worker();
            return Err(PoolError::Protocol("feed called while a suspension is awaiting an answer".to_owned()));
        }
        match ensure_sendable(&inputs) {
            Err(err) => return Err(err),
            Ok(()) => {},
        }
        match build_mount_table(mounts) {
            Err(err) => return Err(err),
            Ok(table) => {
                self.feed_mounts = table;
            },
        }
        let feed: Feed = Feed { code: code.to_owned(), inputs: to_wire_inputs(inputs), skip_type_check };
        Ok(self.execution_request(RequestKind::Feed(feed)))
    }

    /// Sets out to answer a suspended function or OS call.
    pub fn resume(&mut self, value: ResumeValue) -> (r: Result<TurnRequest, PoolError>)
        requires
            old(self).wf(),
            old(self).backstop_fits(),
        ensures
            final(self).wf(),
            match old(self).pending {
                Some(AwaitedAnswer::Call { call_id, function_name }) => {
                    if value is Return && value->Return_0.too_deep {
                        &&& r is Err
                        &&& r->Err_0.is_runtime(ExcType::RuntimeError, "Max input depth exceeded"@)
                        &&& *final(self) == *old(self)
                    } else {
                        &&& r is Ok
                        &&& *final(self) == (Checkout { pending: None, ..*old(self) })
                        &&& r->Ok_0 == (TurnRequest {
                            request: ParentRequest {
                                kind: Some(
                                    RequestKind::ResumeCall {
                                        call_id,
                                        result: Received::Value(
                                            match value {
                                                ResumeValue::Return(outgoing) => ExtFunctionResult::Return(outgoing.value),
                                                ResumeValue::Error(exc) => ExtFunctionResult::Error(exc),
                                                ResumeValue::Future => ExtFunctionResult::Future(call_id),
                                                ResumeValue::NotFound => ExtFunctionResult::NotFound(function_name),
                                            },
                                        ),
                                    },
                                ),
                            },
                            deadline: old(self).execution_deadline(),
                        })
                    }
                },
                _ => {
                    &&& r is Err
                    &&& r->Err_0.is_protocol("no suspended call to resume"@)
                    &&& *final(self) == *old(self)
                },
            },
    {
        let (call_id, function_name) = match &self.pending {
            Some(AwaitedAnswer::Call { call_id, function_name }) => (*call_id, function_name.clone()),
            _ => return Err(PoolError::Protocol("no suspended call to resume".to_owned())),
        };
        let result: ExtFunctionResult = match value {
            ResumeValue::Return(outgoing) => {
                if outgoing.too_deep {
                    return Err(runtime_error(ExcType::RuntimeError, "Max input depth exceeded".to_owned()));
                }
                ExtFunctionResult::Return(outgoing.value)
            },
            ResumeValue::Error(exc) => ExtFunctionResult::Error(exc),
            ResumeValue::Future => ExtFunctionResult::Future(call_id),
            ResumeValue::NotFound => ExtFunctionResult::NotFound(function_name),
        };
        self.pending = None;
        Ok(self.execution_request(RequestKind::ResumeCall { call_id, result: Received::Value(result) }))
    }

    /// Sets out to answer a name lookup: `None` makes the sandbox raise `NameError`.
    pub fn resume_name_lookup(&mut self, value: Option<Outgoing>) -> (r: Result<TurnRequest, PoolError>)
        requires
            old(self).wf(),
            old(self).backstop_fits(),
        ensures
            final(self).wf(),
            r is Ok <==> old(self).pending == Some(AwaitedAnswer::NameLookup) && !(value is Some
                && value->Some_0.too_deep),
            r is Ok ==> *final(self) == (Checkout { pending: None, ..*old(self) }) && r->Ok_0 == (TurnRequest {
                request: ParentRequest {
                    kind: Some(
                        RequestKind::ResumeNameLookup(
                            Ok(
                                match value {
                                    Some(outgoing) => NameLookupResult::Value(outgoing.value),
                                    None => NameLookupResult::Undefined,
                                },
                            ),
                        ),
                    ),
                },
                deadline: old(self).execution_deadline(),
            }),
            r is Err ==> *final(self) == *old(self) && if old(self).pending == Some(AwaitedAnswer::NameLookup) {
                r->Err_0.is_runtime(ExcType::RuntimeError, "Max input depth exceeded"@)
            } else {
                r->Err_0.is_protocol("no suspended name lookup to resume"@)
            },
    {
        match &self.pending {
            Some(AwaitedAnswer::NameLookup) => {},
            _ => return Err(PoolError::Protocol("no suspended name lookup to resume".to_owned())),
        }
        let result: NameLookupResult = match value {
            Some(outgoing) => {
                if outgoing.too_deep {
                    return Err(runtime_error(ExcType::RuntimeError, "Max input depth exceeded".to_owned()));
                }
                NameLookupResult::Value(outgoing.value)
            },
            None => NameLookupResult::Undefined,
        };
        self.pending = None;
        Ok(self.execution_request(RequestKind::ResumeNameLookup(Ok(result))))
    }

    /// Sets out to answer futures with results for some or all pending calls.
    /// Each result must be a value or an exception.
    pub fn resume_futures(&mut self, results: Vec<(u32, ResumeValue)>) -> (r: Result<TurnRequest, PoolError>)
        requires
            old(self).wf(),
            old(self).backstop_fits(),
        ensures
            final(self).wf(),
            r is Ok <==> old(self).pending == Some(AwaitedAnswer::Futures) && futures_resolve(results@),
            r is Ok ==> {
                &&& *final(self) == (Checkout { pending: None, ..*old(self) })
                &&& r->Ok_0.deadline == old(self).execution_deadline()
                &&& match r->Ok_0.request.kind {
                    Some(RequestKind::ResumeFutures(Ok(wire))) => {
                        &&& wire@ == wire_futures(results@)
                        &&& wire@.len() == results@.len()
                        &&& forall|i: int|
                            0 <= i < results@.len() ==> (#[trigger] wire@[i]).0 == results@[i].0 && match results@[i].1 {
                                ResumeValue::Return(outgoing) => wire@[i].1 == ExtFunctionResult::Return(outgoing.value),
                                ResumeValue::Error(exc) => wire@[i].1 == ExtFunctionResult::Error(exc),
                                _ => false,
                            }
                    },
                    _ => false,
                }
            },
            r is Err ==> *final(self) == *old(self) && if old(self).pending == Some(AwaitedAnswer::Futures) {
                let k = first_unresolved(results@);
                0 <= k < results@.len() && is_future_error(r->Err_0, results@[k].0, results@[k].1)
            } else {
                r->Err_0.is_protocol("no suspended futures to resume"@)
            },
    {
        match &self.pending {
            Some(AwaitedAnswer::Futures) => {},
            _ => return Err(PoolError::Protocol("no suspended futures to resume".to_owned())),
        }
        let wire: Vec<(u32, ExtFunctionResult)> = match to_wire_futures(results) {
            Err(err) => return Err(err),
            Ok(wire) => wire,
        };
        self.pending = None;
        Ok(self.execution_request(RequestKind::ResumeFutures(Ok(wire))))
    }

    /// Sets out to install packages into the session; nothing is sent for an
    /// empty list.
    pub fn install_dependencies(&mut self, requirements: Vec<String>) -> (r: Result<Option<TurnRequest>, PoolError>)
        ensures
            *final(self) == *old(self),
            r is Ok <==> old(self).pending is None && first_refused(views(requirements@)) is None,
            r is Ok ==> r->Ok_0 == if requirements@.len() == 0 {
                None
            } else {
                Some(
                    TurnRequest {
                        request: ParentRequest { kind: Some(RequestKind::InstallDependencies(requirements)) },
                        deadline: old(self).limits.request_timeout,
                    },
                )
            },
            r is Err ==> if old(self).pending is Some {
                r->Err_0.is_protocol("install_dependencies called while a suspension is awaiting an answer"@)
            } else {
                r->Err_0.is_runtime(
                    ExcType::ValueError,
                    requirement_message(first_refused(views(requirements@))->Some_0),
                )
            },
    {
        if self.pending.is_some() {
            return Err(
                PoolError::Protocol(
                    "install_dependencies called while a suspension is awaiting an answer".to_owned(),
                ),
            );
        }
        if requirements.len() == 0 {
            proof {
                assert(views(requirements@).len() == 0);
            }
            return Ok(None);
        }
        match validate_requirements(&requirements) {
            Err(message) => Err(invalid_requirement(message)),
            Ok(()) => Ok(
                Some(
                    TurnRequest {
                        request: ParentRequest { kind: Some(RequestKind::InstallDependencies(requirements)) },
                        deadline: self.limits.request_timeout,
                    },
                ),
            ),
        }
    }

    /// The request that serializes the session, which stays live.
    pub fn dump(&self) -> (r: TurnRequest)
        ensures
            r == (TurnRequest {
                request: ParentRequest { kind: Some(RequestKind::Dump) },
                deadline: self.limits.request_timeout,
            }),
    {
        TurnRequest {
            request: ParentRequest { kind: Some(RequestKind::Dump) },
            deadline: self.limits.request_timeout,
        }
    }

    /// Takes in the reply to a dump.
    pub fn dumped(&mut self, reply: ControlEvent, described: &str) -> (r: Result<Vec<u8>, PoolError>)
        ensures
            match reply {
                ControlEvent::Dump(state) => r == Ok::<Vec<u8>, PoolError>(state) && *final(self) == *old(self),
                _ => {
                    &&& r is Err
                    &&& r->Err_0.is_protocol("unexpected reply to Dump: "@ + described@)
                    &&& *final(self) == without_worker(*old(self))
                },
            },
    {
        match reply {
            ControlEvent::Dump(state) => Ok(state),
            _ => Err(self.protocol_violation("unexpected reply to Dump: ", described)),
        }
    }

    /// Ends the session. A websocket worker serves one session only, so
    /// nothing is sent and it goes back to the pool at once; any other worker is
    /// sent a reset, whose reply `finished` takes in.
    pub fn finish(&mut self) -> (r: FinishStep<W>)
        ensures
            old(self).limits.websocket ==> *final(self) == handed_back(*old(self)) && r == FinishStep::Release(
                match old(self).worker {
                    Some(worker) => Some(Released { worker, checkouts_served: old(self).checkouts_served }),
                    None => None,
                },
            ),
            !old(self).limits.websocket ==> *final(self) == *old(self) && r == FinishStep::<W>::Send(
                TurnRequest {
                    request: ParentRequest { kind: Some(RequestKind::Reset) },
                    deadline: old(self).limits.request_timeout,
                },
            ),
    {
        if self.limits.websocket {
            let served: u32 = self.checkouts_served;
            return FinishStep::Release(self.release(served));
        }
        FinishStep::Send(
            TurnRequest {
                request: ParentRequest { kind: Some(RequestKind::Reset) },
                deadline: self.limits.request_timeout,
            },
        )
    }

    /// Takes in the outcome of the turn that ends the session. Only a worker
    /// that acknowledged the reset goes back to the pool, with one more session
    /// served; any other is discarded.
    pub fn finished(&mut self, outcome: Result<ControlEvent, PoolError>, described: &str) -> (r: Result<
        Option<Released<W>>,
        PoolError,
    >)
        requires
            old(self).checkouts_served < u32::MAX,
        ensures
            match outcome {
                Ok(ControlEvent::Okay) => {
                    &&& *final(self) == handed_back(*old(self))
                    &&& r == Ok::<Option<Released<W>>, PoolError>(
                        match old(self).worker {
                            Some(worker) => Some(
                                Released { worker, checkouts_served: (old(self).checkouts_served + 1) as u32 },
                            ),
                            None => None,
                        },
                    )
                },
                Ok(_) => {
                    &&& *final(self) == without_worker(*old(self))
                    &&& r is Err
                    &&& r->Err_0.is_protocol("unexpected reply to Reset: "@ + described@)
                },
                Err(err) => {
                    &&& *final(self) == without_worker(*old(self))
                    &&& r == Err::<Option<Released<W>>, PoolError>(err)
                },
            },
    {
        match outcome {
            Ok(ControlEvent::Okay) => {
                let served: u32 = self.checkouts_served + 1;
                Ok(self.release(served))
            },
            Ok(_) => Err(self.protocol_violation("unexpected reply to Reset: ", described)),
            Err(err) => {
                self.discard_worker();
                Err(err)
            },
        }
    }

    /// Takes the worker out to go back to the pool.
    fn release(&mut self, checkouts_served: u32) -> (r: Option<Released<W>>)
        ensures
            *final(self) == handed_back(*old(self)),
            r == match old(self).worker {
                Some(worker) => Some(Released { worker, checkouts_served }),
                None => None,
            },
    {
        let mut taken: Option<W> = None;
        core::mem::swap(&mut self.worker, &mut taken);
        match taken {
            Some(worker) => Some(Released { worker, checkouts_served }),
            None => None,
        }
    }

    /// Process id of the worker, when it is a local process and still there.
    pub fn pid(&self) -> (r: Option<u32>)
        ensures
            r == if self.worker is Some { self.worker_pid } else { None },
    {
        if self.worker.is_some() { self.worker_pid } else { None }
    }

    /// A request in which sandboxed code runs, with its deadline.
    fn execution_request(&self, kind: RequestKind) -> (r: TurnRequest)
        requires
            self.wf(),
            self.backstop_fits(),
        ensures
            r == (TurnRequest { request: ParentRequest { kind: Some(kind) }, deadline: self.execution_deadline() }),
    {
        TurnRequest {
            request: ParentRequest { kind: Some(kind) },
            deadline: min_deadline(self.limits.request_timeout, self.backstop_deadline()),
        }
    }

    /// Requires the outcome of a turn to be an event for the caller.
    pub fn expect_turn(&mut self, reply: ControlEvent, described: &str) -> (r: Result<TurnEvent, PoolError>)
        ensures
            match reply {
                ControlEvent::Turn(event) => r == Ok::<TurnEvent, PoolError>(event) && *final(self) == *old(self),
                _ => {
                    &&& r is Err
                    &&& r->Err_0.is_protocol("expected a turn event, got "@ + described@)
                    &&& *final(self) == without_worker(*old(self))
                },
            },
    {
        match reply {
            ControlEvent::Turn(event) => Ok(event),
            _ => Err(self.protocol_violation("expected a turn event, got ", described)),
        }
    }

    /// Whether the kill deadline of the session is a duration.
    pub fn has_backstop_room(&self) -> (r: bool)
        requires
            self.wf(),
        ensures
            r == self.backstop_fits(),
    {
        match (self.duration_budget, self.limits.duration_limit_grace) {
            (Some(budget), Some(grace)) => {
                saturating_minus(budget, self.reported_execution) + grace <= MAX_NANOS
            },
            _ => true,
        }
    }

    /// Kill deadline derived from the session's time limit: what is left of it
    /// after the time the worker has reported, plus the grace.
    pub fn backstop_deadline(&self) -> (r: Option<u128>)
        requires
            self.wf(),
            self.backstop_fits(),
        ensures
            r == self.backstop(),
    {
        match (self.duration_budget, self.limits.duration_limit_grace) {
            (Some(budget), Some(grace)) => Some(saturating_minus(budget, self.reported_execution) + grace),
            _ => None,
        }
    }

    /// Adopts the accounting of an event. The reported total only ever goes
    /// up, and the time limit is only adopted when it is not yet known.
    pub fn note_reported_time(&mut self, event: &WorkerEvent)
        requires
            old(self).wf(),
        ensures
            final(self).wf(),
            *final(self) == noted(*old(self), *event),
            final(self).reported_execution >= old(self).reported_execution,
            old(self).duration_budget is Some ==> final(self).duration_budget == old(self).duration_budget,
    {
        let reported: u128 = from_micros(event.total_execution_micros);
        if reported > self.reported_execution {
            self.reported_execution = reported;
        }
        if self.duration_budget.is_none() {
            self.duration_budget = match event.max_duration_micros {
                Some(micros) => Some(from_micros(micros)),
                None => None,
            };
        }
    }

    /// Begins a turn: there must be a worker to send to.
    pub fn begin_turn(&mut self, deadline: Option<u128>) -> (r: Result<Turn, PoolError>)
        ensures
            old(self).worker is None ==> r == Err::<Turn, PoolError>(PoolError::Finished) && *final(self) == *old(self),
            old(self).worker is Some ==> r == Ok::<Turn, PoolError>(Turn { remaining: deadline }) && *final(self) == (
            Checkout { armed_deadline: deadline, ..*old(self) }),
    {
        if self.worker.is_none() {
            return Err(PoolError::Finished);
        }
        self.armed_deadline = deadline;
        Ok(Turn { remaining: deadline })
    }

    /// The request could not be sent. One that is too large was never written,
    /// so the session goes on; any other failure means a dead worker.
    pub fn send_failed(&self, err: FrameError) -> (r: TurnStep)
        ensures
            match err {
                FrameError::FrameTooLarge { len, max } => {
                    &&& r is Unsent
                    &&& r->Unsent_0.is_runtime(
                        ExcType::RuntimeError,
                        "request frame of "@ + decimal(len as nat) + " bytes exceeds the maximum of "@ + decimal(
                            max as nat,
                        ) + " bytes"@,
                    )
                },
                _ => r is Poison && r->Poison_0@ == "sending a request"@,
            },
    {
        match err {
            FrameError::FrameTooLarge { len, max } => TurnStep::Unsent(
                runtime_error(
                    ExcType::RuntimeError,
                    cat5(
                        "request frame of ",
                        decimal_of(len as u64).as_str(),
                        " bytes exceeds the maximum of ",
                        decimal_of(max as u64).as_str(),
                        " bytes",
                    ),
                ),
            ),
            _ => TurnStep::Poison("sending a request".to_owned()),
        }
    }

    /// No event could be received. A body that does not decode arrived from a
    /// worker that misbehaves; any other failure means a dead worker.
    pub fn receive_failed(&mut self, err: FrameError) -> (r: TurnStep)
        ensures
            match err {
                FrameError::Decode(reason) => violates(
                    *old(self),
                    *final(self),
                    r,
                    "invalid payload from worker: "@ + reason@,
                ),
                _ => *final(self) == *old(self) && r is Poison && r->Poison_0@ == "waiting for a reply"@,
            },
    {
        match err {
            FrameError::Decode(reason) => self.violation(cat2("invalid payload from worker: ", reason.as_str()).as_str()),
            _ => TurnStep::Poison("waiting for a reply".to_owned()),
        }
    }

    /// Takes in an event of the worker; `elapsed` is how long the worker has
    /// been running since it was last sent anything.
    pub fn received(&mut self, turn: &mut Turn, event: WorkerEvent, elapsed: u128) -> (step: TurnStep)
        requires
            old(self).wf(),
            event_wf(event),
        ensures
            final(self).wf(),
            receives(*old(self), *final(self), event, step),
            *final(turn) == turn_after(*old(turn), event, elapsed),
    {
        self.note_reported_time(&event);
        if event.restored_script_name.is_some() {
            self.restored_script_name = event.restored_script_name;
        }
        let kind: WorkerEventKind = match event.kind {
            None => return self.violation("unexpected event"),
            Some(kind) => kind,
        };
        match kind {
            WorkerEventKind::Print { stream, text } => TurnStep::Print { stream, text },
            WorkerEventKind::FunctionCall(call) => {
                self.pending = Some(
                    AwaitedAnswer::Call { call_id: call.call_id, function_name: call.function_name.clone() },
                );
                TurnStep::End(
                    Ok(
                        ControlEvent::Turn(
                            TurnEvent::FunctionCall {
                                function_name: call.function_name,
                                args: call.args,
                                kwargs: call.kwargs,
                                call_id: call.call_id,
                                method_call: call.method_call,
                            },
                        ),
                    ),
                )
            },
            WorkerEventKind::OsCall { call_id, call } => {
                turn.remaining = match turn.remaining {
                    Some(allowance) => Some(saturating_minus(allowance, elapsed)),
                    None => None,
                };
                self.route_os_call(call_id, call)
            },
            WorkerEventKind::NameLookup(name) => {
                self.pending = Some(AwaitedAnswer::NameLookup);
                TurnStep::End(Ok(ControlEvent::Turn(TurnEvent::NameLookup { name })))
            },
            WorkerEventKind::ResolveFutures(ids) => {
                self.pending = Some(AwaitedAnswer::Futures);
                TurnStep::End(Ok(ControlEvent::Turn(TurnEvent::ResolveFutures { pending_call_ids: ids })))
            },
            WorkerEventKind::Complete(result) => {
                self.pending = None;
                self.feed_mounts = None;
                match result {
                    Ok(value) => TurnStep::End(Ok(ControlEvent::Turn(TurnEvent::Complete(value)))),
                    Err(err) => self.violation(cat2("invalid payload from worker: ", err.as_str()).as_str()),
                }
            },
            WorkerEventKind::Error(error) => {
                self.pending = None;
                self.feed_mounts = None;
                match error {
                    Received::Missing => self.violation("error event with no exception"),
                    Received::Invalid(err) => self.violation(cat2("invalid exception payload: ", err.as_str()).as_str()),
                    Received::Value(exc) => TurnStep::End(Err(PoolError::Runtime(exc))),
                }
            },
            WorkerEventKind::TypingError(diagnostics) => {
                self.pending = None;
                self.feed_mounts = None;
                TurnStep::End(Err(PoolError::Typing(diagnostics)))
            },
            WorkerEventKind::Okay => TurnStep::End(Ok(ControlEvent::Okay)),
            WorkerEventKind::DumpResult(state) => TurnStep::End(Ok(ControlEvent::Dump(state))),
            WorkerEventKind::FatalError(message) => self.violation(cat2("worker reported fatal error: ", message.as_str()).as_str()),
        }
    }

    /// Routes an OS call to the mounts of the feed, or hands it to the caller.
    fn route_os_call(&mut self, call_id: u32, payload: OsCallPayload) -> (step: TurnStep)
        requires
            old(self).wf(),
            payload is Call ==> payload->Call_0.call.wf(),
        ensures
            final(self).wf(),
            routes_os_call(*old(self), *final(self), call_id, payload, step),
    {
        let host: HostOsCall = match payload {
            OsCallPayload::Missing => return self.violation("OsCall event with no call"),
            OsCallPayload::Invalid(err) => return self.violation(cat2("invalid OS call payload: ", err.as_str()).as_str()),
            OsCallPayload::Consumed => {
                let function_name: String = String::new();
                self.pending = Some(AwaitedAnswer::Call { call_id, function_name: function_name.clone() });
                return TurnStep::End(
                    Ok(
                        ControlEvent::Turn(
                            TurnEvent::OsCall {
                                function_name,
                                args: Vec::new(),
                                kwargs: Vec::new(),
                                call_id,
                                not_handled_error: None,
                            },
                        ),
                    ),
                );
            },
            OsCallPayload::Call(host) => host,
        };
        let HostOsCall { call, args, kwargs, not_handled_error } = host;
        let call: OsCall = match self.try_mount_call(call) {
            MountCallOutcome::Execute(index, call) => {
                return TurnStep::Execute {
                    index,
                    call_id,
                    call: HostOsCall { call, args, kwargs, not_handled_error },
                };
            },
            MountCallOutcome::Refused(error) => return TurnStep::Refuse { call_id, error },
            MountCallOutcome::NotHandled(call) => call,
        };
        self.pending = Some(AwaitedAnswer::Call { call_id, function_name: call.function_name.clone() });
        TurnStep::End(
            Ok(
                ControlEvent::Turn(
                    TurnEvent::OsCall {
                        function_name: call.function_name,
                        args,
                        kwargs,
                        call_id,
                        not_handled_error: Some(not_handled_error),
                    },
                ),
            ),
        )
    }

    /// Routes an OS call to the mounts of the feed; without mounts every call
    /// comes back.
    pub fn try_mount_call(&self, call: OsCall) -> (r: MountCallOutcome)
        requires
            call.wf(),
        ensures
            match self.feed_mounts {
                None => r == MountCallOutcome::NotHandled(call),
                Some(table) => {
                    &&& match routed(table@, call) {
                        MountCallOutcome::Refused(e) => r is Refused && r->Refused_0@ == e@,
                        other => r == other,
                    }
                    &&& r is Execute ==> r->Execute_0 < table@.len()
                },
            },
    {
        match &self.feed_mounts {
            Some(table) => table.handle_os_call(call),
            None => MountCallOutcome::NotHandled(call),
        }
    }

    /// Takes in the result of a call that a mount covers: the worker is
    /// answered with it, within what is left of the turn.
    pub fn serviced(&self, turn: &Turn, call_id: u32, result: ExtFunctionResult) -> (step: TurnStep)
        requires
            self.wf(),
            self.backstop_fits(),
        ensures
            step == (TurnStep::Resume { call_id, result, deadline: tighter(turn.remaining, self.backstop()) }),
    {
        TurnStep::Resume {
            call_id,
            result,
            deadline: min_deadline(turn.remaining, self.backstop_deadline()),
        }
    }

    /// The answer to a covered call could not be sent. One that is too large
    /// is replaced, once, by an exception; any other failure means a dead worker.
    pub fn resume_failed(&self, call_id: u32, deadline: Option<u128>, err: FrameError, replaced: bool) -> (step: TurnStep)
        ensures
            err is FrameTooLarge && !replaced ==> {
                &&& step is Resume
                &&& step->Resume_call_id == call_id
                &&& step->deadline == deadline
                &&& step->result is Error
                &&& step->result->Error_0.says(
                    ExcType::RuntimeError,
                    "OS call result frame of "@ + decimal(err->len as nat) + " bytes exceeds the maximum of "@
                        + decimal(err->max as nat) + " bytes"@,
                )
            },
            !(err is FrameTooLarge) || replaced ==> step is Poison && step->Poison_0@
                == "resuming a mount-covered OS call"@,
    {
        match err {
            FrameError::FrameTooLarge { len, max } => {
                if replaced {
                    return TurnStep::Poison("resuming a mount-covered OS call".to_owned());
                }
                let message: String = cat5(
                    "OS call result frame of ",
                    decimal_of(len as u64).as_str(),
                    " bytes exceeds the maximum of ",
                    decimal_of(max as u64).as_str(),
                    " bytes",
                );
                let exc: RaisedException = RaisedException::new(ExcType::RuntimeError, message);
                TurnStep::Resume { call_id, result: ExtFunctionResult::Error(exc), deadline }
            },
            _ => TurnStep::Poison("resuming a mount-covered OS call".to_owned()),
        }
    }

    /// Ends a turn once the watchdog is disarmed. If the deadline fired after
    /// the last event was read, the worker is dead already, so the apparent
    /// success is reported as a timeout.
    pub fn finish_request_turn(
        &mut self,
        outcome: Result<ControlEvent, PoolError>,
        killed_for_timeout: bool,
    ) -> (r: Result<ControlEvent, PoolError>)
        ensures
            old(self).worker is Some && killed_for_timeout ==> {
                &&& *final(self) == without_worker(*old(self))
                &&& r is Err
                &&& r->Err_0 == (PoolError::Timeout {
                    timeout: match old(self).armed_deadline {
                        Some(deadline) => deadline,
                        None => 0,
                    },
                })
            },
            !(old(self).worker is Some && killed_for_timeout) ==> *final(self) == *old(self) && r == outcome,
    {
        if self.worker.is_some() && killed_for_timeout {
            Err(self.poison("waiting for a reply", true, None))
        } else {
            outcome
        }
    }

    /// Discards the worker after it broke the protocol on an intact stream.
    fn protocol_violation(&mut self, before: &str, detail: &str) -> (r: PoolError)
        ensures
            *final(self) == without_worker(*old(self)),
            r.is_protocol(before@ + detail@),
    {
        self.discard_worker();
        protocol_error(before, detail)
    }

    fn violation(&mut self, message: &str) -> (r: TurnStep)
        ensures
            violates(*old(self), *final(self), r, message@),
    {
        self.discard_worker();
        TurnStep::End(Err(PoolError::Protocol(message.to_owned())))
    }

    /// Discards the worker after an I/O failure and classifies it as a
    /// watchdog timeout or a crash.
    pub fn poison(&mut self, context: &str, timed_out: bool, status: Option<ExitStatus>) -> (r: PoolError)
        ensures
            old(self).worker is None ==> r is Finished && *final(self) == *old(self),
            old(self).worker is Some ==> *final(self) == without_worker(*old(self)) && if timed_out {
                r == (PoolError::Timeout {
                    timeout: match old(self).armed_deadline {
                        Some(deadline) => deadline,
                        None => 0,
                    },
                })
            } else {
                r is Crashed && r->status == status && r->context@ == context@
            },
    {
        if self.worker.is_none() {
            return PoolError::Finished;
        }
        self.discard_worker();
        if timed_out {
            let timeout: u128 = match self.armed_deadline {
                Some(deadline) => deadline,
                None => 0,
            };
            PoolError::Timeout { timeout }
        } else {
            PoolError::Crashed { status, context: context.to_owned() }
        }
    }

    /// Discards the worker without crash classification, as a checkout that is
    /// abandoned does.
    pub fn discard_worker(&mut self)
        ensures
            *final(self) == without_worker(*old(self)),
    {
        if self.worker.is_some() {
            self.capacity_freed = true;
        }
        self.worker = None;
        self.pending = None;
        self.feed_mounts = None;
    }
}

/// The mount table that a feed runs with.
pub open spec fn mounts_match(table: Option<MountTable>, specs: Seq<(MountSpec, HostDirectory)>) -> bool {
    if specs.len() == 0 {
        table is None
    } else {
        table is Some && feed_table(specs) == Ok::<Seq<MountView>, Seq<char>>(table->Some_0@)
    }
}

/// The request that answers a call serviced by a mount.
pub fn send_internal_resume(call_id: u32, result: ExtFunctionResult) -> (r: ParentRequest)
    ensures
        r == (ParentRequest { kind: Some(RequestKind::ResumeCall { call_id, result: Received::Value(result) }) }),
{
    ParentRequest { kind: Some(RequestKind::ResumeCall { call_id, result: Received::Value(result) }) }
}

// ---------------------------------------------------------------------------
// Laws
// ---------------------------------------------------------------------------

/// A turn in which sandboxed code runs is held to the request timeout, and to
/// the session's own time limit plus the grace, whatever was reported so far.
pub proof fn law_execution_is_bounded<W>(c: Checkout<W>)
    requires
        c.wf(),
    ensures
        c.limits.request_timeout is Some ==> c.execution_deadline() is Some && c.execution_deadline()->Some_0
            <= c.limits.request_timeout->Some_0,
        c.duration_budget is Some && c.limits.duration_limit_grace is Some ==> c.execution_deadline() is Some
            && c.execution_deadline()->Some_0 <= c.duration_budget->Some_0 + c.limits.duration_limit_grace->Some_0,
{
}

/// The place of a worker in the pool is freed exactly when the worker is
/// discarded, and stays freed: discarding once more changes nothing.
pub proof fn law_capacity_is_freed_once<W>(c: Checkout<W>)
    requires
        c.wf(),
    ensures
        without_worker(c).wf(),
        without_worker(c).capacity_freed == (c.capacity_freed || c.worker is Some),
        c.worker is Some ==> !c.capacity_freed && without_worker(c).capacity_freed,
        without_worker(without_worker(c)) == without_worker(c),
        handed_back(c).capacity_freed == c.capacity_freed,
        without_worker(handed_back(c)).capacity_freed == c.capacity_freed,
{
}

/// Whatever a worker reports, its place in the pool is freed exactly where the
/// worker goes.
pub proof fn law_capacity_follows_the_worker<W>(pre: Checkout<W>, post: Checkout<W>, e: WorkerEvent, step: TurnStep)
    requires
        pre.wf(),
        receives(pre, post, e, step),
    ensures
        post.capacity_freed == (pre.capacity_freed || (pre.worker is Some && post.worker is None)),
        post.worker is Some ==> post.worker == pre.worker,
{
}

/// When an event ends a turn with an error, the worker is gone unless the
/// error is one that leaves the session usable.
pub proof fn law_only_sandbox_errors_keep_the_worker<W>(
    pre: Checkout<W>,
    post: Checkout<W>,
    e: WorkerEvent,
    step: TurnStep,
)
    requires
        receives(pre, post, e, step),
        step is End,
        step->End_0 is Err,
    ensures
        step->End_0->Err_0.keeps_session() ==> post.worker == pre.worker,
        !step->End_0->Err_0.keeps_session() ==> post.worker is None,
        post.pending is None,
        post.feed_mounts is None,
{
}

/// A feed that has ended leaves no mounts behind for the next one.
pub proof fn law_feed_end_drops_mounts<W>(pre: Checkout<W>, post: Checkout<W>, e: WorkerEvent, step: TurnStep)
    requires
        receives(pre, post, e, step),
        step is End,
        step->End_0 is Ok,
        step->End_0->Ok_0 is Turn,
    ensures
        step->End_0->Ok_0->Turn_0 is Complete ==> post.feed_mounts is None && post.pending is None,
        !(step->End_0->Ok_0->Turn_0 is Complete) ==> post.feed_mounts == pre.feed_mounts && post.pending is Some,
        post.worker == pre.worker,
{
}

/// Whatever a worker reports, the execution time held against it never shrinks
/// and a known time limit never changes.
pub proof fn law_reported_time_ratchets<W>(pre: Checkout<W>, post: Checkout<W>, e: WorkerEvent, step: TurnStep)
    requires
        pre.wf(),
        receives(pre, post, e, step),
    ensures
        post.reported_execution >= pre.reported_execution,
        pre.duration_budget is Some ==> post.duration_budget == pre.duration_budget,
        post.limits == pre.limits,
        pre.duration_budget is Some && pre.limits.duration_limit_grace is Some ==> post.backstop()->Some_0
            <= pre.backstop()->Some_0,
{
}

/// What a worker reports reaches the caller as it was reported: a call with its
/// name, arguments and id, a value, an exception, diagnostics, output or the
/// bytes of a dump. What then awaits an answer is what the worker waits for.
pub proof fn law_events_reach_the_caller_as_reported<W>(
    pre: Checkout<W>,
    post: Checkout<W>,
    e: WorkerEvent,
    step: TurnStep,
)
    requires
        receives(pre, post, e, step),
        e.kind is Some,
    ensures
        match e.kind->Some_0 {
            WorkerEventKind::FunctionCall(call) => {
                &&& step matches TurnStep::End(Ok(ControlEvent::Turn(TurnEvent::FunctionCall {
                    function_name,
                    args,
                    kwargs,
                    call_id,
                    method_call,
                }))) && function_name == call.function_name && args == call.args && kwargs == call.kwargs && call_id
                    == call.call_id && method_call == call.method_call
                &&& post.pending == Some(
                    AwaitedAnswer::Call { call_id: call.call_id, function_name: call.function_name },
                )
            },
            WorkerEventKind::NameLookup(name) => {
                &&& step == TurnStep::End(Ok(ControlEvent::Turn(TurnEvent::NameLookup { name })))
                &&& post.pending == Some(AwaitedAnswer::NameLookup)
            },
            WorkerEventKind::ResolveFutures(ids) => {
                &&& step == TurnStep::End(Ok(ControlEvent::Turn(TurnEvent::ResolveFutures { pending_call_ids: ids })))
                &&& post.pending == Some(AwaitedAnswer::Futures)
            },
            WorkerEventKind::Complete(Ok(value)) => {
                &&& step == TurnStep::End(Ok(ControlEvent::Turn(TurnEvent::Complete(value))))
                &&& post.pending is None
            },
            WorkerEventKind::Error(Received::Value(exc)) => {
                &&& step == TurnStep::End(Err(PoolError::Runtime(exc)))
                &&& post.pending is None
            },
            WorkerEventKind::TypingError(diagnostics) => {
                &&& step == TurnStep::End(Err(PoolError::Typing(diagnostics)))
                &&& post.pending is None
            },
            WorkerEventKind::Print { stream, text } => {
                &&& step == (TurnStep::Print { stream, text })
                &&& post.pending == pre.pending
            },
            WorkerEventKind::Okay => {
                &&& step == TurnStep::End(Ok(ControlEvent::Okay))
                &&& post.pending == pre.pending
            },
            WorkerEventKind::DumpResult(state) => {
                &&& step == TurnStep::End(Ok(ControlEvent::Dump(state)))
                &&& post.pending == pre.pending
            },
            WorkerEventKind::FatalError(_) => post.worker is None && step is End && step->End_0 is Err,
            WorkerEventKind::OsCall { .. } => true,
            WorkerEventKind::Complete(Err(_)) => post.worker is None && step is End && step->End_0 is Err,
            WorkerEventKind::Error(_) => post.worker is None && step is End && step->End_0 is Err,
        },
{
}

/// An OS call goes to the mount that routing picks, with its own id and
/// arguments. Where no mount takes it, it reaches the caller as it was made,
/// and awaits an answer under its id.
pub proof fn law_os_calls_go_to_mounts_first<W>(
    pre: Checkout<W>,
    post: Checkout<W>,
    e: WorkerEvent,
    step: TurnStep,
    call_id: u32,
    host: HostOsCall,
)
    requires
        e.kind == Some(WorkerEventKind::OsCall { call_id, call: OsCallPayload::Call(host) }),
        receives(pre, post, e, step),
    ensures
        ({
            let outcome = if pre.feed_mounts is Some {
                routed(pre.feed_mounts->Some_0@, host.call)
            } else {
                MountCallOutcome::NotHandled(host.call)
            };
            match outcome {
                MountCallOutcome::Execute(index, _) => {
                    &&& step == (TurnStep::Execute { index, call_id, call: host })
                    &&& post.pending == pre.pending
                },
                MountCallOutcome::Refused(err) => {
                    &&& step is Refuse
                    &&& step->Refuse_call_id == call_id
                    &&& step->error@ == err@
                    &&& post.pending == pre.pending
                },
                MountCallOutcome::NotHandled(_) => {
                    &&& step matches TurnStep::End(Ok(ControlEvent::Turn(TurnEvent::OsCall {
                        function_name,
                        args,
                        kwargs,
                        call_id: id,
                        not_handled_error,
                    }))) && function_name == host.call.function_name && args == host.args && kwargs == host.kwargs && id
                        == call_id && not_handled_error == Some(host.not_handled_error)
                    &&& post.pending == Some(
                        AwaitedAnswer::Call { call_id, function_name: host.call.function_name },
                    )
                },
            }
        }),
        post.feed_mounts == pre.feed_mounts,
        post.worker == pre.worker,
{
}

/// The accounting after an event: the execution time is the larger of what was
/// held and what was reported, in nanoseconds; a time limit is adopted where
/// none was known, and a script name where one is announced.
pub proof fn law_accounting_follows_the_reports<W>(pre: Checkout<W>, post: Checkout<W>, e: WorkerEvent, step: TurnStep)
    requires
        receives(pre, post, e, step),
    ensures
        pre.reported_execution >= e.total_execution_micros * 1000 ==> post.reported_execution == pre.reported_execution,
        pre.reported_execution < e.total_execution_micros * 1000 ==> post.reported_execution == e.total_execution_micros
            * 1000,
        pre.duration_budget is Some ==> post.duration_budget == pre.duration_budget,
        pre.duration_budget is None && e.max_duration_micros is None ==> post.duration_budget is None,
        pre.duration_budget is None && e.max_duration_micros is Some ==> post.duration_budget is Some
            && post.duration_budget->Some_0 == e.max_duration_micros->Some_0 * 1000,
        e.restored_script_name is Some ==> post.restored_script_name == e.restored_script_name,
        e.restored_script_name is None ==> post.restored_script_name == pre.restored_script_name,
        post.worker_pid == pre.worker_pid,
        post.checkouts_served == pre.checkouts_served,
        post.armed_deadline == pre.armed_deadline,
{
}

/// The deadline of a turn in which sandboxed code runs is the request timeout
/// or what is left of the session's time limit plus the grace, whichever is
/// less; without a limit or a grace it is the request timeout alone.
pub proof fn law_execution_deadline_is_the_lesser<W>(c: Checkout<W>)
    requires
        c.wf(),
        c.backstop_fits(),
    ensures
        c.duration_budget is None || c.limits.duration_limit_grace is None ==> c.execution_deadline()
            == c.limits.request_timeout,
        c.duration_budget is Some && c.limits.duration_limit_grace is Some ==> {
            let budget = c.duration_budget->Some_0 as int;
            let left = if budget > c.reported_execution { budget - c.reported_execution } else { 0 };
            let backstop = left + c.limits.duration_limit_grace->Some_0;
            &&& c.execution_deadline() is Some
            &&& c.limits.request_timeout is None || c.limits.request_timeout->Some_0 > backstop
                ==> c.execution_deadline()->Some_0 == backstop
            &&& c.limits.request_timeout is Some && c.limits.request_timeout->Some_0 <= backstop
                ==> c.execution_deadline() == c.limits.request_timeout
        },
{
}

/// Only an OS call takes worker time off the turn, and just the stretch that
/// was run.
pub proof fn law_only_os_calls_use_up_a_turn(turn: Turn, e: WorkerEvent, elapsed: u128)
    ensures
        turn.remaining is None ==> turn_after(turn, e, elapsed).remaining is None,
        turn.remaining is Some ==> turn_after(turn, e, elapsed).remaining is Some,
        turn.remaining is Some && e.kind is Some && e.kind->Some_0 is OsCall ==> {
            let left = turn_after(turn, e, elapsed).remaining->Some_0;
            &&& turn.remaining->Some_0 >= elapsed ==> left == turn.remaining->Some_0 - elapsed
            &&& turn.remaining->Some_0 < elapsed ==> left == 0
        },
        !(e.kind is Some && e.kind->Some_0 is OsCall) ==> turn_after(turn, e, elapsed) == turn,
{
}

/// A checkout that loses its worker or its feed keeps everything else.
pub proof fn law_a_lost_worker_leaves_the_accounts<W>(c: Checkout<W>)
    ensures
        without_worker(c).worker is None,
        without_worker(c).pending is None,
        without_worker(c).feed_mounts is None,
        without_worker(c).limits == c.limits,
        without_worker(c).duration_budget == c.duration_budget,
        without_worker(c).reported_execution == c.reported_execution,
        without_worker(c).checkouts_served == c.checkouts_served,
        without_worker(c).worker_pid == c.worker_pid,
        without_worker(c).armed_deadline == c.armed_deadline,
        without_worker(c).restored_script_name == c.restored_script_name,
        handed_back(c).worker is None,
        handed_back(c).pending == c.pending,
        handed_back(c).feed_mounts == c.feed_mounts,
        handed_back(c).reported_execution == c.reported_execution,
{
}

/// A feed's mounts are as many as its specifications, and there is one for each
/// of them: over its normalized virtual path and its host directory, in its
/// mode, with its limits, and with nothing written yet.
pub proof fn law_every_specification_is_mounted(specs: Seq<(MountSpec, HostDirectory)>)
    requires
        feed_table(specs) is Ok,
    ensures
        ({
            let mounts = feed_table(specs)->Ok_0;
            &&& mounts.len() == specs.len()
            &&& longest_first(mounts)
            &&& forall|i: int|
                0 <= i < specs.len() ==> {
                    let (asked, host) = #[trigger] specs[i];
                    host is Found && exists|k: int|
                        {
                            &&& 0 <= k < mounts.len()
                            &&& (#[trigger] mounts[k]).virtual_path == normalized(asked.virtual_path@)
                            &&& mounts[k].host_path == host->Found_0@
                            &&& match asked.mode {
                                MountSpecMode::ReadOnly => mounts[k].mode is ReadOnly,
                                MountSpecMode::ReadWrite => mounts[k].mode is ReadWrite,
                                MountSpecMode::Overlay => mounts[k].mode == MountMode::OverlayMemory(
                                    OverlayState { memory_usage: 0 },
                                ),
                            }
                            &&& mounts[k].write_bytes_used == 0
                            &&& mounts[k].write_bytes_limit == asked.write_bytes_limit
                            &&& mounts[k].memory_usage_limit == asked.memory_usage_limit
                        }
                }
        }),
    decreases specs.len(),
{
    if specs.len() > 0 {
        let before = specs.drop_last();
        law_every_specification_is_mounted(before);
        let old_mounts = feed_table(before)->Ok_0;
        let mounts = feed_table(specs)->Ok_0;
        let (last, last_host) = specs.last();
        let m = feed_mount(last, last_host);
        let at = insert_position(old_mounts, utf8_len(m.virtual_path), 0);
        law_new_mounts_stand_by_length(old_mounts, m);
        law_insertion_keeps_order(old_mounts, m);
        assert(mounts == old_mounts.insert(at, m));
        assert(mounts[at] == m);
        assert forall|i: int| 0 <= i < specs.len() implies {
            let (asked, host) = #[trigger] specs[i];
            host is Found && exists|k: int|
                {
                    &&& 0 <= k < mounts.len()
                    &&& (#[trigger] mounts[k]).virtual_path == normalized(asked.virtual_path@)
                    &&& mounts[k].host_path == host->Found_0@
                    &&& match asked.mode {
                        MountSpecMode::ReadOnly => mounts[k].mode is ReadOnly,
                        MountSpecMode::ReadWrite => mounts[k].mode is ReadWrite,
                        MountSpecMode::Overlay => mounts[k].mode == MountMode::OverlayMemory(
                            OverlayState { memory_usage: 0 },
                        ),
                    }
                    &&& mounts[k].write_bytes_used == 0
                    &&& mounts[k].write_bytes_limit == asked.write_bytes_limit
                    &&& mounts[k].memory_usage_limit == asked.memory_usage_limit
                }
        } by {
            let (asked, host) = specs[i];
            if i < before.len() {
                assert(before[i] == specs[i]);
                let k = choose|k: int|
                    {
                        &&& 0 <= k < old_mounts.len()
                        &&& (#[trigger] old_mounts[k]).virtual_path == normalized(asked.virtual_path@)
                        &&& old_mounts[k].host_path == host->Found_0@
                        &&& match asked.mode {
                            MountSpecMode::ReadOnly => old_mounts[k].mode is ReadOnly,
                            MountSpecMode::ReadWrite => old_mounts[k].mode is ReadWrite,
                            MountSpecMode::Overlay => old_mounts[k].mode == MountMode::OverlayMemory(
                                OverlayState { memory_usage: 0 },
                            ),
                        }
                        &&& old_mounts[k].write_bytes_used == 0
                        &&& old_mounts[k].write_bytes_limit == asked.write_bytes_limit
                        &&& old_mounts[k].memory_usage_limit == asked.memory_usage_limit
                    };
                if k < at {
                    assert(mounts[k] == old_mounts[k]);
                } else {
                    assert(mounts[k + 1] == old_mounts[k]);
                }
            }
        }
    }
}

/// Mounting fails for the first specification that cannot be mounted, and only
/// where there is one.
pub proof fn law_first_unusable_mount_is_reported(specs: Seq<(MountSpec, HostDirectory)>)
    ensures
        feed_table(specs) is Ok <==> forall|i: int|
            0 <= i < specs.len() ==> mount_error(
                (#[trigger] specs[i]).0.virtual_path@,
                specs[i].0.host_path@,
                specs[i].1,
            ) is None,
        feed_table(specs) is Err ==> exists|i: int|
            {
                &&& 0 <= i < specs.len()
                &&& mount_error((#[trigger] specs[i]).0.virtual_path@, specs[i].0.host_path@, specs[i].1) == Some(
                    feed_table(specs)->Err_0,
                )
                &&& forall|j: int|
                    0 <= j < i ==> mount_error(
                        (#[trigger] specs[j]).0.virtual_path@,
                        specs[j].0.host_path@,
                        specs[j].1,
                    ) is None
            },
    decreases specs.len(),
{
    if specs.len() > 0 {
        let before = specs.drop_last();
        law_first_unusable_mount_is_reported(before);
        assert forall|i: int| 0 <= i < before.len() implies before[i] == #[trigger] specs[i] by {}
        let last = specs.len() - 1;
        assert(specs.last() == specs[last]);
        if feed_table(before) is Err {
            let i = choose|i: int|
                {
                    &&& 0 <= i < before.len()
                    &&& mount_error((#[trigger] before[i]).0.virtual_path@, before[i].0.host_path@, before[i].1) == Some(
                        feed_table(before)->Err_0,
                    )
                    &&& forall|j: int|
                        0 <= j < i ==> mount_error(
                            (#[trigger] before[j]).0.virtual_path@,
                            before[j].0.host_path@,
                            before[j].1,
                        ) is None
                };
            assert(before[i] == specs[i]);
            assert(mount_error(specs[i].0.virtual_path@, specs[i].0.host_path@, specs[i].1) is Some);
            assert forall|j: int| 0 <= j < i implies mount_error(
                (#[trigger] specs[j]).0.virtual_path@,
                specs[j].0.host_path@,
                specs[j].1,
            ) is None by {
                assert(before[j] == specs[j]);
            }
        } else {
            assert forall|j: int| 0 <= j < last implies mount_error(
                (#[trigger] specs[j]).0.virtual_path@,
                specs[j].0.host_path@,
                specs[j].1,
            ) is None by {
                assert(before[j] == specs[j]);
            }
        }
    }
}

/// An OS call that cannot be read ends the session with a protocol error. One
/// announced again after a restore reaches the caller under its id, without the
/// arguments that were handed out before.
pub proof fn law_unreadable_os_calls_end_the_session<W>(
    pre: Checkout<W>,
    post: Checkout<W>,
    e: WorkerEvent,
    step: TurnStep,
    call_id: u32,
    payload: OsCallPayload,
)
    requires
        e.kind == Some(WorkerEventKind::OsCall { call_id, call: payload }),
        !(payload is Call),
        receives(pre, post, e, step),
    ensures
        step is End,
        payload is Missing || payload is Invalid ==> {
            &&& post.worker is None
            &&& post.pending is None
            &&& step->End_0 is Err
            &&& step->End_0->Err_0 is Protocol
        },
        payload is Missing ==> step->End_0->Err_0->Protocol_0@ == "OsCall event with no call"@,
        payload is Invalid ==> step->End_0->Err_0->Protocol_0@ == "invalid OS call payload: "@ + payload->Invalid_0@,
        payload is Consumed ==> {
            &&& post.worker == pre.worker
            &&& post.pending is Some
            &&& post.pending->Some_0 is Call
            &&& post.pending->Some_0->call_id == call_id
            &&& step matches TurnStep::End(Ok(ControlEvent::Turn(TurnEvent::OsCall {
                function_name,
                args,
                kwargs,
                call_id: id,
                not_handled_error,
            }))) && function_name@.len() == 0 && args@.len() == 0 && kwargs@.len() == 0 && id == call_id
                && not_handled_error is None
        },
{
}

/// An event without a kind, a fatal report and a payload that cannot be read
/// end the session, each with its own words.
pub proof fn law_unreadable_events_end_the_session<W>(
    pre: Checkout<W>,
    post: Checkout<W>,
    e: WorkerEvent,
    step: TurnStep,
)
    requires
        receives(pre, post, e, step),
        match e.kind {
            None => true,
            Some(WorkerEventKind::FatalError(_)) => true,
            Some(WorkerEventKind::Complete(Err(_))) => true,
            Some(WorkerEventKind::Error(exc)) => !(exc is Value),
            _ => false,
        },
    ensures
        post.worker is None,
        post.pending is None,
        post.feed_mounts is None,
        step is End,
        step->End_0 is Err,
        step->End_0->Err_0 is Protocol,
        step->End_0->Err_0->Protocol_0@ == match e.kind {
            Some(WorkerEventKind::FatalError(message)) => "worker reported fatal error: "@ + message@,
            Some(WorkerEventKind::Complete(Err(err))) => "invalid payload from worker: "@ + err@,
            Some(WorkerEventKind::Error(Received::Invalid(err))) => "invalid exception payload: "@ + err@,
            Some(WorkerEventKind::Error(_)) => "error event with no exception"@,
            _ => "unexpected event"@,
        },
{
}

/// A future that cannot be resolved is named where its answer is of the wrong
/// kind; a value that is too deep is an error that leaves the session usable.
pub proof fn law_future_errors_say_what_is_wrong(err: PoolError, call_id: u32, value: ResumeValue)
    requires
        is_future_error(err, call_id, value),
    ensures
        value is Return ==> err is Runtime && err->Runtime_0.exc_type@ == "RuntimeError"@ && err->Runtime_0.message is Some
            && err->Runtime_0.message->Some_0@ == "Max input depth exceeded"@,
        !(value is Return) ==> err is Protocol && err->Protocol_0@ == "future "@ + decimal(call_id as nat)
            + " must resolve to Return or Error"@,
{
}

/// A feed runs with one mount for each specification, and without a table where
/// there are none.
pub proof fn law_feeds_run_with_their_mounts(table: Option<MountTable>, specs: Seq<(MountSpec, HostDirectory)>)
    requires
        mounts_match(table, specs),
    ensures
        specs.len() == 0 <==> table is None,
        table is Some ==> table->Some_0@.len() == specs.len(),
        table is Some ==> feed_table(specs) == Ok::<Seq<MountView>, Seq<char>>(table->Some_0@),
{
    if specs.len() > 0 {
        law_every_specification_is_mounted(specs);
    }
}

/// Errors carry their whole message: a protocol error as it is, a runtime error
/// as an exception of the named type. Only those of sandboxed code and of the
/// type checker leave the session usable.
pub proof fn law_errors_carry_their_message(err: PoolError, exc_type: ExcType, message: Seq<char>)
    ensures
        err.is_protocol(message) ==> err is Protocol && err->Protocol_0@ == message && !err.keeps_session(),
        err.is_runtime(exc_type, message) ==> {
            &&& err is Runtime
            &&& err.keeps_session()
            &&& err->Runtime_0.exc_type@ == exc_type.name()
            &&& err->Runtime_0.message is Some
            &&& err->Runtime_0.message->Some_0@ == message
            &&& err->Runtime_0.traceback.frames@.len() == 0
        },
        err.keeps_session() <==> err is Runtime || err is Typing,
{
}

/// A value is too deep to be sent exactly where one of the inputs is.
pub proof fn law_one_deep_value_is_too_many(values: Seq<(String, Outgoing)>, i: int)
    requires
        0 <= i < values.len(),
    ensures
        values[i].1.too_deep ==> any_too_deep(values),
        !any_too_deep(values) ==> !values[i].1.too_deep,
{
}

} // verus!
