use std::collections::VecDeque;

use monty_host::checkout::{
    build_mount_table, min_deadline, send_internal_resume, AwaitedAnswer, Checkout, ControlEvent, ExitStatus, FinishStep,
    HostOsCall,
    MountSpec, MountSpecMode, OsCallPayload, Outgoing, PoolError, PoolLimits, ReplConfig, ResumeValue, Turn,
    TurnEvent, TurnRequest, TurnStep, WorkerEvent, WorkerEventKind, DEFAULT_ASSERT_BYTES, MAX_NANOS,
};
use monty_host::frame::FrameError;
use monty_host::host_path::{HostComponent, HostPath};
use monty_host::mount_table::{HostDirectory, OsCall, DEFAULT_MEMORY_USAGE_LIMIT};
use monty_host::proto::{
    ExtFunctionResult, FunctionCall, MontyObject, PrintStream, RaisedException, Received, RequestKind, ResourceLimits,
    Traceback,
};

const MILLI: u128 = 1_000_000;

/// The worker of a test: nothing but a name.
type Session = Checkout<&'static str>;

fn limits() -> PoolLimits {
    PoolLimits { request_timeout: None, duration_limit_grace: None, websocket: true }
}

fn checkout_with(limits: PoolLimits, repl: ReplConfig) -> Session {
    let (mut checkout, request) = Checkout::create("worker", None, 4, limits, repl);
    assert!(matches!(&request.request.kind, Some(RequestKind::Configure(c)) if c.monty_version == "0.1.0"));
    let reply = run(&mut checkout, &request, vec![(WorkerEventKind::Okay, 0)], &mut |_| unreachable!());
    let reply = reply.ok().expect("configured");
    assert!(checkout.acknowledged("Configure", reply, "").is_ok());
    checkout
}

fn checkout() -> Session {
    checkout_with(limits(), ReplConfig::default())
}

fn event(kind: WorkerEventKind) -> WorkerEvent {
    WorkerEvent {
        kind: Some(kind),
        restored_script_name: None,
        total_execution_micros: 0,
        max_duration_micros: None,
    }
}

/// Runs a turn against a worker that reports these events, each after some
/// nanoseconds. Calls that a mount covers are answered by `service`. The
/// worker is killed once a deadline has passed.
fn run(
    checkout: &mut Session,
    request: &TurnRequest,
    events: Vec<(WorkerEventKind, u128)>,
    service: &mut dyn FnMut(HostOsCall) -> ExtFunctionResult,
) -> Result<ControlEvent, PoolError> {
    let timed = events.into_iter().map(|(kind, at)| (event(kind), at)).collect();
    run_events(checkout, request, timed, service)
}

fn run_events(
    checkout: &mut Session,
    request: &TurnRequest,
    events: Vec<(WorkerEvent, u128)>,
    service: &mut dyn FnMut(HostOsCall) -> ExtFunctionResult,
) -> Result<ControlEvent, PoolError> {
    let mut turn: Turn = checkout.begin_turn(request.deadline)?;
    let mut armed = request.deadline;
    let mut events: VecDeque<_> = events.into();
    loop {
        let Some((event, elapsed)) = events.pop_front() else {
            // the worker never answers: the watchdog fires
            assert!(armed.is_some(), "nothing would ever stop this turn");
            return Err(checkout.poison("waiting for a reply", true, None));
        };
        if armed.is_some_and(|deadline| elapsed > deadline) {
            return Err(checkout.poison("waiting for a reply", true, None));
        }
        let mut step = checkout.received(&mut turn, event, elapsed);
        loop {
            step = match step {
                TurnStep::Print { .. } => break,
                TurnStep::Execute { call_id, call, .. } => {
                    let result = service(call);
                    checkout.serviced(&turn, call_id, result)
                }
                TurnStep::Refuse { call_id, error } => {
                    checkout.serviced(&turn, call_id, ExtFunctionResult::Error(exception("OSError", &format!("{error:?}"))))
                }
                TurnStep::Resume { deadline, .. } => {
                    armed = deadline;
                    break;
                }
                TurnStep::Poison(context) => return Err(checkout.poison(&context, false, None)),
                TurnStep::End(outcome) => return checkout.finish_request_turn(outcome, false),
                TurnStep::Unsent(err) => return Err(err),
            };
        }
    }
}

fn exception(exc_type: &str, message: &str) -> RaisedException {
    RaisedException {
        exc_type: exc_type.to_owned(),
        message: Some(message.to_owned()),
        traceback: Traceback::empty(),
        data: None,
    }
}

fn host(names: &[&str]) -> HostPath {
    let mut components = vec![HostComponent::RootDir];
    components.extend(names.iter().map(|n| HostComponent::Normal((*n).to_owned())));
    HostPath { components }
}

fn mnt() -> (MountSpec, HostDirectory) {
    (
        MountSpec::new("/mnt".to_owned(), "/host/dir".to_owned(), MountSpecMode::ReadOnly),
        HostDirectory::Found(host(&["host", "dir"])),
    )
}

fn os_call(function_name: &str, path: &str) -> OsCallPayload {
    OsCallPayload::Call(HostOsCall {
        call: OsCall {
            function_name: function_name.to_owned(),
            filesystem: true,
            primary_path: Some(path.to_owned()),
            rename_destination: None,
        },
        args: vec![MontyObject::Path(path.to_owned())],
        kwargs: vec![],
        not_handled_error: exception("RuntimeError", "no handler"),
    })
}

fn killed() -> ExitStatus {
    ExitStatus { code: None, text: "signal: 9 (SIGKILL)".to_owned() }
}

fn unserviced(_: HostOsCall) -> ExtFunctionResult {
    panic!("no mount covers this call")
}

#[test]
fn drives_a_session_over_websocket() {
    let repl = ReplConfig { script_name: "test.py".to_owned(), ..ReplConfig::default() };
    let limits = PoolLimits { request_timeout: Some(10_000 * MILLI), ..limits() };
    let mut checkout = checkout_with(limits, repl);
    // The WebSocket worker has no local pid.
    assert_eq!(checkout.pid(), None);
    let request = checkout.feed("1 + 1", vec![], vec![], false).ok().expect("feed");
    assert_eq!(request.deadline, Some(10_000 * MILLI));
    let complete = WorkerEventKind::Complete(Ok(MontyObject::Int(42)));
    let reply = run(&mut checkout, &request, vec![(complete, 0)], &mut unserviced).ok().expect("turn");
    let event = checkout.expect_turn(reply, "").ok().expect("event");
    assert!(matches!(event, TurnEvent::Complete(MontyObject::Int(42))), "got {event:?}");
    match checkout.finish() {
        FinishStep::Release(Some(released)) => {
            assert_eq!((released.worker, released.checkouts_served), ("worker", 4));
        }
        _ => panic!("a websocket worker is released at once"),
    }
    assert!(checkout.worker.is_none() && !checkout.capacity_freed);
}

#[test]
fn mounted_reads_are_serviced_from_the_parent_filesystem() {
    let mut checkout = checkout();
    let request = checkout.feed("unused", vec![], vec![mnt()], false).ok().expect("feed");
    let mut served = Vec::new();
    let reply = run(
        &mut checkout,
        &request,
        vec![
            (WorkerEventKind::OsCall { call_id: 7, call: os_call("Path.read_text", "/mnt/data.txt") }, 0),
            (WorkerEventKind::Complete(Ok(MontyObject::Str("done".to_owned()))), 0),
        ],
        &mut |call| {
            served.push(call.call.primary_path.expect("path"));
            ExtFunctionResult::Return(MontyObject::Str("parent-side bytes".to_owned()))
        },
    )
    .ok()
    .expect("turn");
    assert_eq!(served, vec!["/mnt/data.txt".to_owned()]);
    assert!(
        matches!(&reply, ControlEvent::Turn(TurnEvent::Complete(MontyObject::Str(s))) if s == "done"),
        "got {reply:?}"
    );
    assert!(checkout.feed_mounts.is_none(), "the mounts go with their feed");
    let resume = send_internal_resume(7, ExtFunctionResult::Return(MontyObject::Str("parent-side bytes".to_owned())));
    assert!(matches!(resume.kind, Some(RequestKind::ResumeCall {
        call_id: 7,
        result: Received::Value(ExtFunctionResult::Return(MontyObject::Str(s))),
    }) if s == "parent-side bytes"));
}

#[test]
fn malformed_os_call_is_a_protocol_error() {
    let mut checkout = checkout();
    let request = checkout.feed("unused", vec![], vec![mnt()], false).ok().expect("feed");
    let call = OsCallPayload::Invalid("invalid file mode \"q\"".to_owned());
    let err = run(
        &mut checkout,
        &request,
        vec![(WorkerEventKind::OsCall { call_id: 3, call }, 0)],
        &mut unserviced,
    )
    .expect_err("malformed fs call must fail the feed");
    let PoolError::Protocol(msg) = err else {
        panic!("expected Protocol error, got {err:?}");
    };
    assert_eq!(msg, "invalid OS call payload: invalid file mode \"q\"");
    assert!(checkout.worker.is_none());
}

#[test]
fn duration_backstop_kills_an_unresponsive_worker() {
    let repl = ReplConfig {
        limits: Some(ResourceLimits { max_duration_micros: Some(100_000), other: vec![] }),
        ..ReplConfig::default()
    };
    let limits = PoolLimits { duration_limit_grace: Some(300 * MILLI), ..limits() };
    let mut checkout = checkout_with(limits, repl);
    let request = checkout.feed("while True:\n    pass", vec![], vec![], false).ok().expect("feed");
    let err = run(&mut checkout, &request, vec![], &mut unserviced).unwrap_err();
    let PoolError::Timeout { timeout } = err else {
        panic!("expected Timeout, got {err:?}");
    };
    // the armed deadline was the remaining budget (<=100ms) plus the grace
    assert!(timeout <= 400 * MILLI, "deadline was {timeout:?}");
    assert_eq!(timeout, 400 * MILLI);
}

#[test]
fn mount_calls_do_not_reset_the_request_deadline() {
    let limits = PoolLimits { request_timeout: Some(500 * MILLI), ..limits() };
    let mut checkout = checkout_with(limits, ReplConfig::default());
    let request = checkout.feed("unused", vec![], vec![mnt()], false).ok().expect("feed");
    // "run" for 200ms then issue a covered call, repeatedly
    let events = (0..20)
        .map(|call_id| (WorkerEventKind::OsCall { call_id, call: os_call("Path.exists", "/mnt") }, 200 * MILLI))
        .collect();
    let mut rounds = 0;
    let err = run(&mut checkout, &request, events, &mut |_| {
        rounds += 1;
        ExtFunctionResult::Return(MontyObject::Bool(true))
    })
    .expect_err("cumulative worker time must exhaust the turn allowance");
    let PoolError::Timeout { timeout } = err else {
        panic!("expected Timeout, got {err:?}");
    };
    // the reported timeout is the turn deadline, not a per-exchange residual
    assert_eq!(timeout, 500 * MILLI);
    assert_eq!(rounds, 2);
}

#[test]
fn restored_session_rearms_the_duration_backstop() {
    let limits = PoolLimits { duration_limit_grace: Some(300 * MILLI), ..limits() };
    let mut checkout = checkout_with(limits, ReplConfig::default());
    let request = checkout.restore(vec![1, 2, 3], vec![]).ok().expect("restore");
    assert!(matches!(&request.request.kind, Some(RequestKind::Load(state)) if state == &[1, 2, 3]));
    let idle = WorkerEvent {
        kind: Some(WorkerEventKind::Okay),
        restored_script_name: Some("restored.py".to_owned()),
        total_execution_micros: 0,
        max_duration_micros: Some(100_000),
    };
    let reply = run_events(&mut checkout, &request, vec![(idle, 0)], &mut unserviced).ok().expect("turn");
    let (event, script_name) = checkout.restored(reply, "").ok().expect("restored");
    assert!(event.is_none());
    assert_eq!(script_name.as_deref(), Some("restored.py"));
    let request = checkout.feed("while True:\n    pass", vec![], vec![], false).ok().expect("feed");
    let err = run(&mut checkout, &request, vec![], &mut unserviced).unwrap_err();
    let PoolError::Timeout { timeout } = err else {
        panic!("expected Timeout, got {err:?}");
    };
    assert!(timeout <= 400 * MILLI, "deadline was {timeout:?}");
}

#[test]
fn calls_are_answered_by_id_and_name() {
    let mut checkout = checkout();
    assert!(matches!(checkout.resume(ResumeValue::NotFound), Err(PoolError::Protocol(m)) if m == "no suspended call to resume"));
    let request = checkout.feed("f()", vec![], vec![], false).ok().expect("feed");
    let call = FunctionCall {
        function_name: "f".to_owned(),
        args: vec![MontyObject::Int(1)],
        kwargs: vec![],
        call_id: 5,
        method_call: true,
    };
    let reply = run(&mut checkout, &request, vec![
        (WorkerEventKind::Print { stream: PrintStream::Stdout, text: "x".to_owned() }, 0),
        (WorkerEventKind::FunctionCall(call), 0),
    ], &mut unserviced).ok().expect("turn");
    assert!(matches!(&reply, ControlEvent::Turn(TurnEvent::FunctionCall { call_id: 5, method_call: true, .. })));
    assert!(matches!(&checkout.pending, Some(AwaitedAnswer::Call { call_id: 5, function_name }) if function_name == "f"));
    assert!(matches!(checkout.install_dependencies(vec![]),
        Err(PoolError::Protocol(m)) if m == "install_dependencies called while a suspension is awaiting an answer"));
    assert!(matches!(checkout.resume_name_lookup(None),
        Err(PoolError::Protocol(m)) if m == "no suspended name lookup to resume"));
    assert!(matches!(checkout.resume_futures(vec![]),
        Err(PoolError::Protocol(m)) if m == "no suspended futures to resume"));
    let deep = ResumeValue::Return(Outgoing { value: MontyObject::NoneValue, too_deep: true });
    assert!(matches!(checkout.resume(deep),
        Err(PoolError::Runtime(e)) if e.message.as_deref() == Some("Max input depth exceeded")));
    let request = checkout.resume(ResumeValue::NotFound).ok().expect("resume");
    assert!(matches!(request.request.kind, Some(RequestKind::ResumeCall {
        call_id: 5,
        result: Received::Value(ExtFunctionResult::NotFound(name)),
    }) if name == "f"));
    assert!(checkout.pending.is_none());
}

#[test]
fn a_feed_while_suspended_costs_the_worker() {
    let mut checkout = checkout();
    let request = checkout.feed("x", vec![], vec![], false).ok().expect("feed");
    let events = vec![(WorkerEventKind::NameLookup("x".to_owned()), 0)];
    run(&mut checkout, &request, events, &mut unserviced).ok().expect("turn");
    assert!(matches!(checkout.feed("g()", vec![], vec![], false),
        Err(PoolError::Protocol(m)) if m == "feed called while a suspension is awaiting an answer"));
    assert!(checkout.worker.is_none() && checkout.pending.is_none() && checkout.capacity_freed);
    assert!(matches!(checkout.begin_turn(None), Err(PoolError::Finished)));
}

#[test]
fn only_an_acknowledged_reset_brings_the_worker_back() {
    let limits = PoolLimits { websocket: false, ..limits() };
    let mut session = checkout_with(limits, ReplConfig::default());
    assert!(matches!(session.finish(), FinishStep::Send(r) if matches!(r.request.kind, Some(RequestKind::Reset))));
    let released = session.finished(Ok(ControlEvent::Okay), "").ok().expect("finished").expect("a worker");
    assert_eq!((released.worker, released.checkouts_served), ("worker", 5));
    assert!(session.worker.is_none() && !session.capacity_freed);
    // discarding afterwards frees nothing
    session.discard_worker();
    assert!(!session.capacity_freed);
    let mut session = checkout_with(limits, ReplConfig::default());
    assert!(matches!(session.finished(Ok(ControlEvent::Dump(vec![])), "Dump([])"),
        Err(PoolError::Protocol(m)) if m == "unexpected reply to Reset: Dump([])"));
    assert!(session.worker.is_none() && session.capacity_freed);
    let mut session = checkout_with(limits, ReplConfig::default());
    assert!(matches!(session.finished(Err(PoolError::Exhausted), ""), Err(PoolError::Exhausted)));
    assert!(session.worker.is_none() && session.capacity_freed);
}

#[test]
fn futures_must_resolve() {
    let mut checkout = checkout();
    let request = checkout.feed("gather()", vec![], vec![], false).ok().expect("feed");
    run(&mut checkout, &request, vec![(WorkerEventKind::ResolveFutures(vec![1, 2]), 0)], &mut unserviced).ok().expect("turn");
    assert!(matches!(checkout.resume_futures(vec![(2, ResumeValue::Future)]),
        Err(PoolError::Protocol(m)) if m == "future 2 must resolve to Return or Error"));
    let request = checkout
        .resume_futures(vec![
            (1, ResumeValue::Return(Outgoing { value: MontyObject::Int(1), too_deep: false })),
            (2, ResumeValue::Error(exception("ValueError", "no"))),
        ])
        .ok()
        .expect("resume");
    assert!(matches!(request.request.kind, Some(RequestKind::ResumeFutures(Ok(r))) if r.len() == 2 && r[0].0 == 1));
}

#[test]
fn errors_that_keep_the_session() {
    let mut checkout = checkout();
    let request = checkout.feed("1/0", vec![], vec![mnt()], false).ok().expect("feed");
    let err = run(&mut checkout, &request, vec![
        (WorkerEventKind::Error(Received::Value(exception("ZeroDivisionError", "division by zero"))), 0),
    ], &mut unserviced).unwrap_err();
    assert!(matches!(err, PoolError::Runtime(e) if e.exc_type == "ZeroDivisionError"));
    assert!(checkout.worker.is_some() && checkout.feed_mounts.is_none());
    let request = checkout.feed("x", vec![], vec![], false).ok().expect("feed");
    let err = run(&mut checkout, &request, vec![(WorkerEventKind::TypingError("bad".to_owned()), 0)], &mut unserviced);
    assert!(matches!(err, Err(PoolError::Typing(d)) if d == "bad"));
    assert!(checkout.worker.is_some());
    let inputs = vec![("v".to_owned(), Outgoing { value: MontyObject::NoneValue, too_deep: true })];
    assert!(matches!(checkout.feed("v", inputs, vec![], false),
        Err(PoolError::Runtime(e)) if e.message.as_deref() == Some("Max input depth exceeded")));
    let bad = (MountSpec::new("rel".to_owned(), "/h".to_owned(), MountSpecMode::Overlay), HostDirectory::NotADirectory);
    assert!(matches!(checkout.feed("v", vec![], vec![bad], false),
        Err(PoolError::Runtime(e)) if e.exc_type == "ValueError"
            && e.message.as_deref() == Some("virtual path must be absolute, got: 'rel'")));
    assert!(checkout.worker.is_some());
    assert!(matches!(checkout.install_dependencies(vec!["-e .".to_owned()]), Err(PoolError::Runtime(e))
        if e.exc_type == "ValueError" && e.message.as_deref()
            == Some("invalid requirement \"-e .\": must not start with '-' (it would be parsed as a uv option)")));
    assert!(matches!(checkout.install_dependencies(vec![]), Ok(None)));
    assert!(matches!(checkout.install_dependencies(vec!["six".to_owned()]), Ok(Some(_))));
    assert!(matches!(
        checkout.send_failed(FrameError::FrameTooLarge { len: 9, max: 8 }),
        TurnStep::Unsent(PoolError::Runtime(e))
            if e.message.as_deref() == Some("request frame of 9 bytes exceeds the maximum of 8 bytes")
    ));
}

#[test]
fn errors_that_lose_the_worker() {
    for (kind, expected) in [
        (WorkerEventKind::FatalError("bye".to_owned()), "worker reported fatal error: bye"),
        (WorkerEventKind::Complete(Err("no value".to_owned())), "invalid payload from worker: no value"),
        (WorkerEventKind::Error(Received::Missing), "error event with no exception"),
        (WorkerEventKind::Error(Received::Invalid("?".to_owned())), "invalid exception payload: ?"),
        (WorkerEventKind::OsCall { call_id: 1, call: OsCallPayload::Missing }, "OsCall event with no call"),
    ] {
        let mut checkout = checkout();
        let request = checkout.feed("x", vec![], vec![], false).ok().expect("feed");
        let err = run(&mut checkout, &request, vec![(kind, 0)], &mut unserviced).unwrap_err();
        assert!(matches!(err, PoolError::Protocol(m) if m == expected));
        assert!(checkout.worker.is_none());
        assert!(matches!(checkout.begin_turn(None), Err(PoolError::Finished)));
        assert!(matches!(checkout.poison("x", false, None), PoolError::Finished));
    }
    let mut checkout = checkout();
    let mut turn = checkout.begin_turn(None).ok().expect("turn");
    let nothing = WorkerEvent {
        kind: None,
        restored_script_name: None,
        total_execution_micros: 0,
        max_duration_micros: None,
    };
    assert!(matches!(checkout.received(&mut turn, nothing, 0),
        TurnStep::End(Err(PoolError::Protocol(m))) if m == "unexpected event"));
}

#[test]
fn dead_workers_are_classified() {
    let mut checkout = checkout();
    assert!(matches!(checkout.receive_failed(FrameError::Truncated), TurnStep::Poison(c) if c == "waiting for a reply"));
    assert!(matches!(checkout.send_failed(FrameError::Truncated), TurnStep::Poison(c) if c == "sending a request"));
    assert!(matches!(checkout.poison("waiting for a reply", false, Some(killed())),
        PoolError::Crashed { status: Some(ExitStatus { code: None, text }), context }
            if text == "signal: 9 (SIGKILL)" && context == "waiting for a reply"));
    let mut checkout = self::checkout();
    assert!(matches!(checkout.receive_failed(FrameError::Decode("bad".to_owned())),
        TurnStep::End(Err(PoolError::Protocol(m))) if m == "invalid payload from worker: bad"));
    let mut checkout = self::checkout();
    checkout.begin_turn(Some(3)).ok().expect("turn");
    // the deadline fired right after the last event
    assert!(matches!(
        checkout.finish_request_turn(Ok(ControlEvent::Okay), true),
        Err(PoolError::Timeout { timeout: 3 })
    ));
    let checkout = self::checkout();
    assert!(matches!(
        checkout.resume_failed(1, None, FrameError::FrameTooLarge { len: 9, max: 8 }, false),
        TurnStep::Resume { result: ExtFunctionResult::Error(e), .. }
            if e.message.as_deref() == Some("OS call result frame of 9 bytes exceeds the maximum of 8 bytes")
    ));
    assert!(matches!(
        checkout.resume_failed(1, None, FrameError::FrameTooLarge { len: 9, max: 8 }, true),
        TurnStep::Poison(c) if c == "resuming a mount-covered OS call"
    ));
}

#[test]
fn unexpected_replies_are_protocol_errors() {
    let mut checkout = checkout();
    assert!(matches!(checkout.acknowledged("Reset", ControlEvent::Dump(vec![]), "Dump([])"),
        Err(PoolError::Protocol(m)) if m == "unexpected reply to Reset: Dump([])"));
    let mut checkout = self::checkout();
    assert!(matches!(checkout.expect_turn(ControlEvent::Okay, "Ok"),
        Err(PoolError::Protocol(m)) if m == "expected a turn event, got Ok"));
    let mut checkout = self::checkout();
    assert!(matches!(checkout.dumped(ControlEvent::Okay, "Ok"),
        Err(PoolError::Protocol(m)) if m == "unexpected reply to Dump: Ok"));
    let mut checkout = self::checkout();
    assert!(matches!(checkout.restored(ControlEvent::Dump(vec![]), "Dump([])"),
        Err(PoolError::Protocol(m)) if m == "unexpected reply to Load: Dump([])"));
    let mut checkout = self::checkout();
    assert_eq!(checkout.dumped(ControlEvent::Dump(vec![7]), "").ok(), Some(vec![7]));
    assert!(matches!(checkout.dump().request.kind, Some(RequestKind::Dump)));
    let limits = PoolLimits { websocket: false, request_timeout: Some(1), duration_limit_grace: None };
    let (mut checkout, _) = Checkout::create("w", Some(77), 0, limits, ReplConfig::default());
    assert_eq!(checkout.pid(), Some(77));
    assert!(matches!(checkout.finish(), FinishStep::Send(TurnRequest { deadline: Some(1), .. })));
}

#[test]
fn kill_deadlines_are_durations() {
    let repl = ReplConfig {
        limits: Some(ResourceLimits { max_duration_micros: Some(1000), other: vec![] }),
        ..ReplConfig::default()
    };
    let limits = PoolLimits { duration_limit_grace: Some(MAX_NANOS), ..limits() };
    let (mut checkout, _) = Checkout::create("w", None, 0, limits, repl);
    assert!(!checkout.has_backstop_room());
    checkout.duration_budget = Some(0);
    assert!(checkout.has_backstop_room());
    assert_eq!(checkout.backstop_deadline(), Some(MAX_NANOS));
}

#[test]
fn reported_time_never_goes_back() {
    let repl = ReplConfig {
        limits: Some(ResourceLimits { max_duration_micros: Some(1000), other: vec![] }),
        ..ReplConfig::default()
    };
    let limits = PoolLimits { duration_limit_grace: Some(10), request_timeout: Some(u128::MAX), websocket: false };
    let mut checkout = checkout_with(limits, repl);
    let report = |micros, max| WorkerEvent {
        kind: Some(WorkerEventKind::Okay),
        restored_script_name: None,
        total_execution_micros: micros,
        max_duration_micros: max,
    };
    assert_eq!(checkout.backstop_deadline(), Some(1_000_010));
    checkout.note_reported_time(&report(400, Some(9)));
    assert_eq!(checkout.backstop_deadline(), Some(600_010));
    checkout.note_reported_time(&report(100, None));
    assert_eq!(checkout.backstop_deadline(), Some(600_010));
    checkout.note_reported_time(&report(5000, None));
    assert_eq!(checkout.backstop_deadline(), Some(10));
    assert_eq!(min_deadline(Some(3), Some(2)), Some(2));
    assert_eq!(min_deadline(None, Some(2)), Some(2));
    assert_eq!(min_deadline(Some(3), None), Some(3));
    assert_eq!(min_deadline(None, None), None);
}

#[test]
fn consumed_calls_surface_without_arguments() {
    let mut checkout = checkout();
    let request = checkout.feed("x", vec![], vec![mnt()], false).ok().expect("feed");
    let consumed = WorkerEventKind::OsCall { call_id: 4, call: OsCallPayload::Consumed };
    let reply = run(&mut checkout, &request, vec![(consumed, 0)], &mut unserviced).ok().expect("turn");
    assert!(matches!(&reply, ControlEvent::Turn(TurnEvent::OsCall { function_name, args, call_id: 4, not_handled_error: None, .. })
        if function_name.is_empty() && args.is_empty()));
    // a call outside every mount surfaces with its own error
    let mut checkout = self::checkout();
    let request = checkout.feed("x", vec![], vec![mnt()], false).ok().expect("feed");
    let call = WorkerEventKind::OsCall { call_id: 6, call: os_call("Path.stat", "/elsewhere") };
    let reply = run(&mut checkout, &request, vec![(call, 0)], &mut unserviced).ok().expect("turn");
    assert!(matches!(&reply, ControlEvent::Turn(TurnEvent::OsCall { function_name, not_handled_error: Some(e), .. })
        if function_name == "Path.stat" && e.message.as_deref() == Some("no handler")));
}

#[test]
fn mount_tables_follow_their_specifications() {
    assert!(matches!(build_mount_table(vec![]), Ok(None)));
    let mut spec = MountSpec::new("/a/./b".to_owned(), "/h".to_owned(), MountSpecMode::Overlay);
    assert_eq!(spec.memory_usage_limit, DEFAULT_MEMORY_USAGE_LIMIT);
    spec.memory_usage_limit = 5;
    spec.write_bytes_limit = Some(3);
    let table = build_mount_table(vec![(spec, HostDirectory::Found(host(&["h"]))), mnt()])
        .ok()
        .expect("table")
        .expect("mounts");
    assert_eq!(table.len(), 2);
    let mount = table.get(0).expect("mount");
    assert_eq!(mount.virtual_path(), "/mnt");
    let mount = table.get(1).expect("mount");
    assert_eq!((mount.virtual_path(), mount.memory_usage_limit(), mount.write_bytes_limit()), ("/a/b", 5, Some(3)));
    assert_eq!(ReplConfig::default().assert_message_annotations, DEFAULT_ASSERT_BYTES);
    assert_eq!(ReplConfig::default().script_name, "main.py");
}
