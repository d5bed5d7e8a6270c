use std::collections::VecDeque;

use monty_host::dump::{parse_dump, TAG_IDLE, TAG_SUSPENDED};
use monty_host::frame::{read_frame, write_frame, EventSink, FrameError, VecEventSink, MAX_FRAME_LEN};
use monty_host::print::{floor_char_boundary, print_failure, stdout_event, ProtoPrint, FLUSH_BYTES};
use monty_host::proto::{
    fatal_error_event, monty_version, protocol_violation, ChildEvent, CodeLoc, Configure, EventKind, ExtFunctionResult,
    Feed, FunctionCall, MontyObject, NameLookupResult, NamedValue, OsRequest, ParentRequest, PrintStream, RaisedException, Received,
    RequestKind, ResourceLimits, StackFrame, Traceback,
};
use monty_host::worker::{
    decoded_request, give_up, open_request, BuildFor, Child, HandleOutcome, LoadOutcome, OpenedRequest, Outcome, Pending, ReplSpec, RequestFrame, ResumeWith,
    SessionState, Step, SuspendedAt, Timing, Verdict,
};

/// A stand-in for the interpreter: it replays what it is told to.
#[derive(Default)]
struct Engine {
    outcomes: VecDeque<(Vec<&'static str>, Outcome<String, String>)>,
    verdicts: VecDeque<Verdict>,
    loads: VecDeque<LoadOutcome<String, String>>,
    started: Vec<String>,
    inputs: Vec<(String, MontyObject)>,
    resumed: Vec<ResumeWith>,
    built: Vec<ReplSpec>,
    checked_stubs: Vec<Option<String>>,
    encoded_len: usize,
    streams: Vec<PrintStream>,
}

impl Engine {
    fn complete(&mut self, value: MontyObject) {
        self.prints(vec![], value);
    }

    fn prints(&mut self, prints: Vec<&'static str>, value: MontyObject) {
        self.outcomes
            .push_back((prints, Outcome::Complete { repl: "idle".to_owned(), value, too_deep: false }));
    }

    fn suspend(&mut self, at: SuspendedAt) {
        self.outcomes
            .push_back((vec![], Outcome::Suspended { at, too_deep: false, suspension: "waiting".to_owned() }));
    }

    fn raise(&mut self, exc_type: &str, message: Option<&str>) {
        self.outcomes
            .push_back((vec![], Outcome::Failed { repl: "idle".to_owned(), error: raised(exc_type, message, true) }));
    }
}

type Session = Child<String, String>;

fn raised(exc_type: &str, message: Option<&str>, frame: bool) -> RaisedException {
    let frames = if frame {
        vec![StackFrame {
            filename: "main.py".to_owned(),
            start: CodeLoc { line: 1, column: 1 },
            end: CodeLoc { line: 1, column: 6 },
            frame_name: None,
            preview_line: Some(0),
            hide_caret: false,
            hide_frame_name: false,
        }]
    } else {
        vec![]
    };
    RaisedException {
        exc_type: exc_type.to_owned(),
        message: message.map(|m| m.to_owned()),
        traceback: Traceback { frames, previews: vec!["1 / 0".to_owned()] },
        data: None,
    }
}

fn timing() -> Timing {
    Timing { elapsed_micros: 1234, max_duration_micros: Some(100_000) }
}

/// Runs one turn to its end.
fn turn(child: &mut Session, engine: &mut Engine, first: Step<String, String>) -> (Vec<String>, Option<ChildEvent>, HandleOutcome) {
    let mut step = first;
    let mut printed = Vec::new();
    loop {
        step = match step {
            Step::Nothing => return (printed, None, HandleOutcome::Continue),
            Step::Respond(event) => {
                let event = child.stamp_execution_time(event, timing());
                return (printed, Some(event), HandleOutcome::Continue);
            }
            Step::Send(event, outcome) => return (printed, Some(event), outcome),
            Step::Fatal(message, outcome) => {
                return (printed, Some(child.fatal_event(&message, timing())), outcome);
            }
            Step::Build(spec, purpose) => {
                engine.built.push(spec);
                child.built("idle".to_owned(), purpose)
            }
            Step::Check { stubs, feed, .. } => {
                engine.checked_stubs.push(stubs);
                let verdict = engine.verdicts.pop_front().unwrap_or(Verdict::Passed);
                child.checked(feed, verdict)
            }
            Step::Start { code, inputs, .. } => {
                engine.started.push(code);
                engine.inputs = inputs;
                run(child, engine, &mut printed)
            }
            Step::Resume { with, .. } => {
                engine.resumed.push(with);
                run(child, engine, &mut printed)
            }
            Step::Measure { pending, suspension, event } => {
                child.measured(pending, suspension, event, engine.encoded_len)
            }
            Step::Abandon { message, .. } => Step::Respond(child.abort_feed_with_runtime_error("idle".to_owned(), message)),
            Step::DumpIdle => Step::Respond(child.dumped(Ok(b"idle state".to_vec()))),
            Step::DumpSuspended => Step::Respond(child.dumped(Ok(b"suspended state".to_vec()))),
            Step::LoadIdle { meta, payload } => {
                assert_eq!(payload, b"idle state");
                let outcome = engine.loads.pop_front().unwrap_or(LoadOutcome::Idle("loaded".to_owned()));
                Step::Respond(child.loaded(meta, outcome))
            }
            Step::LoadSuspended { meta, payload } => {
                assert_eq!(payload, b"suspended state");
                let outcome = engine.loads.pop_front().expect("a suspended load");
                Step::Respond(child.loaded(meta, outcome))
            }
        };
    }
}

fn run(child: &mut Session, engine: &mut Engine, printed: &mut Vec<String>) -> Step<String, String> {
    let (prints, outcome) = engine.outcomes.pop_front().expect("a scripted outcome");
    let mut print = ProtoPrint::new();
    let mut pieces = Vec::new();
    for text in prints {
        pieces.extend(print.stdout_write(text));
    }
    let step = child.drive(outcome);
    pieces.extend(print.drain());
    for piece in pieces {
        if let Some(EventKind::Print { stream, text }) = stdout_event(piece).kind {
            engine.streams.push(stream);
            printed.push(text);
        }
    }
    step
}

fn request(child: &mut Session, engine: &mut Engine, kind: RequestKind) -> (Vec<String>, EventKind, HandleOutcome) {
    let first = child.handle(ParentRequest { kind: Some(kind) });
    let (prints, event, outcome) = turn(child, engine, first);
    (prints, event.expect("an event").kind.expect("a kind"), outcome)
}

fn configure(type_check: bool) -> Configure {
    Configure {
        script_name: "main.py".to_owned(),
        limits: None,
        type_check,
        type_check_stubs: None,
        assert_message_annotations: None,
        monty_version: monty_version(),
    }
}

fn create_repl(child: &mut Session, engine: &mut Engine) {
    create_repl_with(child, engine, configure(false));
}

fn create_repl_with(child: &mut Session, engine: &mut Engine, configure: Configure) {
    let (_, kind, outcome) = request(child, engine, RequestKind::Configure(configure));
    assert_eq!(outcome, HandleOutcome::Continue);
    assert!(matches!(kind, EventKind::Okay));
}

fn feed(child: &mut Session, engine: &mut Engine, code: &str) -> (Vec<String>, EventKind) {
    feed_with(child, engine, code, vec![])
}

fn feed_with(child: &mut Session, engine: &mut Engine, code: &str, inputs: Vec<NamedValue>) -> (Vec<String>, EventKind) {
    let kind = RequestKind::Feed(Feed { code: code.to_owned(), inputs, skip_type_check: false });
    let (prints, kind, outcome) = request(child, engine, kind);
    assert_eq!(outcome, HandleOutcome::Continue);
    (prints, kind)
}

fn resume_call(child: &mut Session, engine: &mut Engine, call_id: u32, result: ExtFunctionResult) -> EventKind {
    request(child, engine, RequestKind::ResumeCall { call_id, result: Received::Value(result) }).1
}

fn expect_complete(kind: EventKind) -> MontyObject {
    match kind {
        EventKind::Complete(value) => value,
        other => panic!("expected Complete, got {other:?}"),
    }
}

fn expect_error(kind: EventKind) -> RaisedException {
    match kind {
        EventKind::Error(error) => error,
        other => panic!("expected Error, got {other:?}"),
    }
}

fn function_call(name: &str, args: Vec<MontyObject>, call_id: u32) -> SuspendedAt {
    SuspendedAt::FunctionCall(FunctionCall {
        function_name: name.to_owned(),
        args,
        kwargs: vec![],
        call_id,
        method_call: false,
    })
}

fn session() -> (Session, Engine) {
    (Child::new(), Engine::default())
}

#[test]
fn feed_round_trips_a_value() {
    let (mut child, mut engine) = session();
    create_repl(&mut child, &mut engine);
    engine.complete(MontyObject::Int(3));
    let (_, event) = feed(&mut child, &mut engine, "1 + 2");
    assert_eq!(expect_complete(event), MontyObject::Int(3));
    assert_eq!(engine.started, vec!["1 + 2".to_owned()]);
}

#[test]
fn dispatch_session_state_persists_across_feeds() {
    let (mut child, mut engine) = session();
    create_repl(&mut child, &mut engine);
    engine.complete(MontyObject::NoneValue);
    engine.complete(MontyObject::Int(42));
    let (_, first) = feed(&mut child, &mut engine, "x = 21");
    assert_eq!(expect_complete(first), MontyObject::NoneValue);
    let (_, second) = feed(&mut child, &mut engine, "x * 2");
    assert_eq!(expect_complete(second), MontyObject::Int(42));
    assert_eq!(engine.built.len(), 1, "one interpreter session serves both feeds");
}

#[test]
fn print_output_is_streamed_before_the_terminator() {
    let (mut child, mut engine) = session();
    create_repl(&mut child, &mut engine);
    engine.prints(vec!["hello\n", "world\n"], MontyObject::NoneValue);
    let (prints, event) = feed(&mut child, &mut engine, "print('hello'); print('world')");
    assert_eq!(prints.concat(), "hello\nworld\n");
    assert_eq!(expect_complete(event), MontyObject::NoneValue);
}

#[test]
fn dispatch_inputs_are_injected() {
    let (mut child, mut engine) = session();
    create_repl(&mut child, &mut engine);
    engine.complete(MontyObject::Int(42));
    let inputs = vec![NamedValue { name: "n".to_owned(), value: Received::Value(MontyObject::Int(41)) }];
    let (_, event) = feed_with(&mut child, &mut engine, "n + 1", inputs);
    assert_eq!(expect_complete(event), MontyObject::Int(42));
    assert_eq!(engine.inputs, vec![("n".to_owned(), MontyObject::Int(41))]);
}

#[test]
fn malformed_request_frame_is_recoverable() {
    let (mut child, mut engine) = session();
    // a length prefix claiming bytes that aren't there
    let frame = match read_frame(&[0xff, 0xff, 0xff, 0x7f]) {
        Err(FrameError::FrameTooLarge { len, max }) => RequestFrame::Broken(format!("{len} > {max}")),
        other => panic!("{other:?}"),
    };
    let first = child.dispatch_into(frame);
    let (_, event, outcome) = turn(&mut child, &mut engine, first);
    assert_eq!(outcome, HandleOutcome::Shutdown);
    assert!(matches!(event.expect("event").kind, Some(EventKind::FatalError(_))));
}

#[test]
fn shutdown_request_reports_shutdown() {
    let (mut child, mut engine) = session();
    create_repl(&mut child, &mut engine);
    let (_, kind, outcome) = request(&mut child, &mut engine, RequestKind::Shutdown);
    assert_eq!(outcome, HandleOutcome::Shutdown);
    assert!(matches!(kind, EventKind::Okay));
}

#[test]
fn subprocess_session_state_persists_across_feeds() {
    let (mut child, mut engine) = session();
    create_repl(&mut child, &mut engine);
    engine.complete(MontyObject::Int(3));
    engine.complete(MontyObject::Int(6));
    let (_, event) = feed(&mut child, &mut engine, "x = 1 + 2\nx");
    assert_eq!(expect_complete(event), MontyObject::Int(3));
    let (_, event) = feed(&mut child, &mut engine, "x * 2");
    assert_eq!(expect_complete(event), MontyObject::Int(6));
}

#[test]
fn subprocess_inputs_are_injected() {
    let (mut child, mut engine) = session();
    create_repl(&mut child, &mut engine);
    engine.complete(MontyObject::Int(21));
    let inputs = vec![NamedValue { name: "a".to_owned(), value: Received::Value(MontyObject::Int(20)) }];
    let (_, event) = feed_with(&mut child, &mut engine, "a + 1", inputs);
    assert_eq!(expect_complete(event), MontyObject::Int(21));
    assert_eq!(engine.inputs, vec![("a".to_owned(), MontyObject::Int(20))]);
}

#[test]
fn print_output_is_streamed_in_order() {
    let (mut child, mut engine) = session();
    create_repl(&mut child, &mut engine);
    engine.prints(vec!["one\n", "two\n", "three"], MontyObject::Str("done".to_owned()));
    let (prints, event) = feed(&mut child, &mut engine, "print('one')\nprint('two')\nprint('three', end='')\n'done'");
    expect_complete(event);
    // the partial (no-newline) third line must still arrive before the turn ends
    assert_eq!(prints.concat(), "one\ntwo\nthree");
    assert!(!engine.streams.is_empty() && engine.streams.iter().all(|stream| *stream == PrintStream::Stdout));
}

#[test]
fn runtime_error_preserves_session() {
    let (mut child, mut engine) = session();
    create_repl(&mut child, &mut engine);
    engine.complete(MontyObject::NoneValue);
    assert_eq!(expect_complete(feed(&mut child, &mut engine, "kept = 41").1), MontyObject::NoneValue);
    engine.raise("ZeroDivisionError", Some("division by zero"));
    let error = expect_error(feed(&mut child, &mut engine, "1 / 0").1);
    assert_eq!(error.exc_type, "ZeroDivisionError");
    assert_eq!(error.message.as_deref(), Some("division by zero"));
    assert!(!error.traceback.frames.is_empty(), "traceback frames must cross the wire");
    engine.complete(MontyObject::Int(42));
    assert_eq!(expect_complete(feed(&mut child, &mut engine, "kept + 1").1), MontyObject::Int(42));
}

#[test]
fn external_function_round_trip() {
    let (mut child, mut engine) = session();
    create_repl(&mut child, &mut engine);
    engine.suspend(function_call("add", vec![MontyObject::Int(1), MontyObject::Int(2)], 7));
    let (_, event) = feed(&mut child, &mut engine, "add(1, 2)");
    let EventKind::FunctionCall(call) = event else {
        panic!("expected FunctionCall, got {event:?}");
    };
    assert_eq!(call.function_name, "add");
    assert!(!call.method_call);
    assert_eq!(call.args, vec![MontyObject::Int(1), MontyObject::Int(2)]);
    engine.complete(MontyObject::Int(3));
    let event = resume_call(&mut child, &mut engine, call.call_id, ExtFunctionResult::Return(MontyObject::Int(3)));
    assert_eq!(expect_complete(event), MontyObject::Int(3));
    assert!(matches!(
        engine.resumed.as_slice(),
        [ResumeWith::Call(ExtFunctionResult::Return(MontyObject::Int(3)))]
    ));
}

#[test]
fn name_lookup_round_trip() {
    let (mut child, mut engine) = session();
    create_repl(&mut child, &mut engine);
    engine.suspend(SuspendedAt::NameLookup("answer".to_owned()));
    let (_, event) = feed(&mut child, &mut engine, "answer + 1");
    let EventKind::NameLookup(name) = event else {
        panic!("expected NameLookup, got {event:?}");
    };
    assert_eq!(name, "answer");
    engine.complete(MontyObject::Int(42));
    let kind = RequestKind::ResumeNameLookup(Ok(NameLookupResult::Value(MontyObject::Int(41))));
    let (_, event, _) = request(&mut child, &mut engine, kind);
    assert_eq!(expect_complete(event), MontyObject::Int(42));
}

#[test]
fn external_function_not_found_raises_name_error() {
    let (mut child, mut engine) = session();
    create_repl(&mut child, &mut engine);
    engine.suspend(function_call("undefined_fn", vec![], 1));
    let (_, event) = feed(&mut child, &mut engine, "undefined_fn()");
    let EventKind::FunctionCall(call) = event else {
        panic!("expected FunctionCall, got {event:?}");
    };
    engine.raise("NameError", Some("name 'undefined_fn' is not defined"));
    let event = resume_call(
        &mut child,
        &mut engine,
        call.call_id,
        ExtFunctionResult::NotFound("undefined_fn".to_owned()),
    );
    let error = expect_error(event);
    assert_eq!(error.exc_type, "NameError");
    assert_eq!(error.message.as_deref(), Some("name 'undefined_fn' is not defined"));
    assert!(matches!(
        engine.resumed.as_slice(),
        [ResumeWith::Call(ExtFunctionResult::NotFound(name))] if name == "undefined_fn"
    ));
}

#[test]
fn os_call_bubbles_to_parent_without_mounts() {
    let (mut child, mut engine) = session();
    create_repl(&mut child, &mut engine);
    engine.suspend(SuspendedAt::OsCall {
        call_id: 5,
        call: OsRequest::Call { function_name: "Path.read_text".to_owned(), payload: b"/data.txt".to_vec() },
    });
    let (_, event) = feed(&mut child, &mut engine, "from pathlib import Path\nPath('/data.txt').read_text()");
    let EventKind::OsCall { call_id, call: OsRequest::Call { function_name, payload } } = event else {
        panic!("expected OsCall, got {event:?}");
    };
    assert_eq!(function_name, "Path.read_text");
    assert_eq!(payload, b"/data.txt");
    engine.complete(MontyObject::Str("hello".to_owned()));
    let result = ExtFunctionResult::Return(MontyObject::Str("hello".to_owned()));
    let event = resume_call(&mut child, &mut engine, call_id, result);
    assert_eq!(expect_complete(event), MontyObject::Str("hello".to_owned()));
}

#[test]
fn os_call_error_resume_carries_exception() {
    let (mut child, mut engine) = session();
    create_repl(&mut child, &mut engine);
    engine.suspend(SuspendedAt::OsCall {
        call_id: 2,
        call: OsRequest::Call { function_name: "Path.read_text".to_owned(), payload: b"/nope.txt".to_vec() },
    });
    let (_, event) = feed(&mut child, &mut engine, "from pathlib import Path\nPath('/nope.txt').read_text()");
    let EventKind::OsCall { call_id, .. } = event else {
        panic!("expected OsCall, got {event:?}");
    };
    let exc = raised("FileNotFoundError", Some("No such file or directory: '/nope.txt'"), false);
    engine.raise("FileNotFoundError", Some("No such file or directory: '/nope.txt'"));
    let error = expect_error(resume_call(&mut child, &mut engine, call_id, ExtFunctionResult::Error(exc)));
    assert_eq!(error.exc_type, "FileNotFoundError");
    assert!(!error.traceback.frames.is_empty());
    assert!(matches!(
        engine.resumed.as_slice(),
        [ResumeWith::Call(ExtFunctionResult::Error(e))] if e.exc_type == "FileNotFoundError"
    ));
}

#[test]
fn child_enforces_time_limit() {
    let (mut child, mut engine) = session();
    create_repl_with(
        &mut child,
        &mut engine,
        Configure {
            limits: Some(ResourceLimits { max_duration_micros: Some(100_000), other: vec![] }),
            ..configure(false)
        },
    );
    engine.raise("TimeoutError", None);
    let error = expect_error(feed(&mut child, &mut engine, "while True:\n    pass").1);
    assert_eq!(error.exc_type, "TimeoutError");
    assert_eq!(engine.built[0].limits.as_ref().expect("limits").max_duration_micros, Some(100_000));
    // exhaustion ends the session but not the child: a reset lets it be reused
    engine.raise("TimeoutError", None);
    assert_eq!(expect_error(feed(&mut child, &mut engine, "1 + 1").1).exc_type, "TimeoutError");
    assert!(matches!(request(&mut child, &mut engine, RequestKind::Reset).1, EventKind::Okay));
    create_repl(&mut child, &mut engine);
    engine.complete(MontyObject::Int(2));
    assert_eq!(expect_complete(feed(&mut child, &mut engine, "1 + 1").1), MontyObject::Int(2));
}

#[test]
fn install_dependencies_is_rejected_but_session_survives() {
    let (mut child, mut engine) = session();
    create_repl(&mut child, &mut engine);
    let kind = RequestKind::InstallDependencies(vec!["numpy".to_owned()]);
    let error = expect_error(request(&mut child, &mut engine, kind).1);
    assert_eq!(error.exc_type, "RuntimeError");
    assert_eq!(
        error.message.as_deref(),
        Some("dependency installation is only supported by the CPython worker")
    );
    engine.complete(MontyObject::Int(2));
    assert_eq!(expect_complete(feed(&mut child, &mut engine, "1 + 1").1), MontyObject::Int(2));
}

#[test]
fn type_checked_session_rejects_bad_snippets_and_remembers_good_ones() {
    let (mut child, mut engine) = session();
    create_repl_with(&mut child, &mut engine, configure(true));
    engine.verdicts.push_back(Verdict::Rejected("error[invalid-assignment]: no".to_owned()));
    let (_, event) = feed(&mut child, &mut engine, "x: int = 'not an int'");
    let EventKind::TypingError(diagnostics) = event else {
        panic!("expected TypingError, got {event:?}");
    };
    assert!(diagnostics.contains("invalid-assignment"), "{diagnostics}");
    // a committed snippet becomes visible to later type checks
    engine.complete(MontyObject::NoneValue);
    assert_eq!(expect_complete(feed(&mut child, &mut engine, "y = 1").1), MontyObject::NoneValue);
    engine.complete(MontyObject::Int(2));
    assert_eq!(expect_complete(feed(&mut child, &mut engine, "y + 1").1), MontyObject::Int(2));
    // ... and the rejected snippet was never committed
    engine.verdicts.push_back(Verdict::Rejected("unresolved".to_owned()));
    assert!(matches!(feed(&mut child, &mut engine, "x").1, EventKind::TypingError(_)));
    assert_eq!(
        engine.checked_stubs,
        vec![None, None, Some("\ny = 1".to_owned()), Some("\ny = 1\ny + 1".to_owned())]
    );
}

fn dump(child: &mut Session, engine: &mut Engine) -> Vec<u8> {
    assert!(child.dumpable());
    match request(child, engine, RequestKind::Dump).1 {
        EventKind::DumpResult(state) => state,
        other => panic!("expected DumpResult, got {other:?}"),
    }
}

#[test]
fn dump_then_load_into_fresh_child_resumes() {
    let (mut child, mut engine) = session();
    create_repl(&mut child, &mut engine);
    engine.complete(MontyObject::NoneValue);
    assert_eq!(expect_complete(feed(&mut child, &mut engine, "base = 40").1), MontyObject::NoneValue);
    engine.suspend(function_call("ext", vec![], 11));
    let (_, event) = feed(&mut child, &mut engine, "ext()");
    let EventKind::FunctionCall(call) = event else {
        panic!("expected FunctionCall, got {event:?}");
    };
    assert_eq!(call.function_name, "ext");
    let state = dump(&mut child, &mut engine);
    assert!(!state.is_empty());
    drop(child);

    let (mut fresh, mut engine) = session();
    engine.loads.push_back(LoadOutcome::Suspended {
        at: function_call("ext", vec![], 11),
        suspension: "restored".to_owned(),
    });
    let (_, event, _) = request(&mut fresh, &mut engine, RequestKind::Load(state));
    let EventKind::FunctionCall(restored) = event else {
        panic!("expected re-emitted FunctionCall after Load, got {event:?}");
    };
    assert_eq!(restored.function_name, "ext");
    assert_eq!(restored.call_id, call.call_id);
    engine.complete(MontyObject::Int(2));
    let event = resume_call(&mut fresh, &mut engine, restored.call_id, ExtFunctionResult::Return(MontyObject::Int(2)));
    assert_eq!(expect_complete(event), MontyObject::Int(2));
    engine.complete(MontyObject::Int(42));
    assert_eq!(expect_complete(feed(&mut fresh, &mut engine, "base + 2").1), MontyObject::Int(42));
}

#[test]
fn type_check_state_survives_dump_and_load() {
    let (mut child, mut engine) = session();
    create_repl_with(&mut child, &mut engine, configure(true));
    engine.complete(MontyObject::NoneValue);
    assert_eq!(expect_complete(feed(&mut child, &mut engine, "y = 1").1), MontyObject::NoneValue);
    let state = dump(&mut child, &mut engine);

    let (mut fresh, mut engine) = session();
    assert!(matches!(request(&mut fresh, &mut engine, RequestKind::Load(state)).1, EventKind::Okay));
    engine.verdicts.push_back(Verdict::Rejected("no".to_owned()));
    assert!(matches!(feed(&mut fresh, &mut engine, "x: int = 'not an int'").1, EventKind::TypingError(_)));
    engine.complete(MontyObject::Int(2));
    assert_eq!(expect_complete(feed(&mut fresh, &mut engine, "y + 1").1), MontyObject::Int(2));
    assert_eq!(engine.checked_stubs, vec![Some("\ny = 1".to_owned()), Some("\ny = 1".to_owned())]);
}

#[test]
fn assert_annotation_option_survives_dump_and_load() {
    let (mut child, mut engine) = session();
    // 0 = annotations off
    create_repl_with(&mut child, &mut engine, Configure { assert_message_annotations: Some(0), ..configure(false) });
    let state = dump(&mut child, &mut engine);
    assert_eq!(engine.built[0].assert_message_annotations, Some(0));

    let (mut fresh, mut engine) = session();
    assert!(matches!(request(&mut fresh, &mut engine, RequestKind::Load(state)).1, EventKind::Okay));
    engine.raise("AssertionError", None);
    let error = expect_error(feed(&mut fresh, &mut engine, "assert 1 == 2").1);
    assert_eq!(error.exc_type, "AssertionError");
    assert_eq!(error.message, None);
    assert!(engine.built.is_empty(), "the restored session is not built anew");
}

#[test]
fn assert_annotation_custom_limit_survives_dump_and_load() {
    let (mut child, mut engine) = session();
    create_repl_with(&mut child, &mut engine, Configure { assert_message_annotations: Some(6), ..configure(false) });
    let state = dump(&mut child, &mut engine);
    assert_eq!(engine.built[0].assert_message_annotations, Some(6));

    let (mut fresh, mut engine) = session();
    assert!(matches!(request(&mut fresh, &mut engine, RequestKind::Load(state)).1, EventKind::Okay));
    engine.raise("AssertionError", Some("assert 'abcde… == ''"));
    let error = expect_error(feed(&mut fresh, &mut engine, "assert 'abcdefghij' == ''").1);
    assert_eq!(error.exc_type, "AssertionError");
    assert_eq!(error.message.as_deref(), Some("assert 'abcde… == ''"));
}

#[test]
fn protocol_violations_keep_the_child_alive() {
    let (mut child, mut engine) = session();
    // feed without a session
    let error = expect_error(feed(&mut child, &mut engine, "1 + 1").1);
    assert_eq!(error.exc_type, "RuntimeError");
    assert!(error.message.expect("message").starts_with("protocol violation"));
    // the child is still usable
    create_repl(&mut child, &mut engine);
    // double create
    let again = Configure { script_name: "again.py".to_owned(), ..configure(false) };
    let error = expect_error(request(&mut child, &mut engine, RequestKind::Configure(again)).1);
    assert!(error.message.expect("message").contains("already exists"));
    // resume with a bogus call id while suspended
    engine.suspend(function_call("missing", vec![], 4));
    let (_, event) = feed(&mut child, &mut engine, "missing()");
    let EventKind::FunctionCall(call) = event else {
        panic!("expected FunctionCall, got {event:?}");
    };
    let event = resume_call(
        &mut child,
        &mut engine,
        call.call_id + 1,
        ExtFunctionResult::Return(MontyObject::Int(0)),
    );
    let message = expect_error(event).message.expect("message");
    assert!(message.starts_with("protocol violation"));
    assert_eq!(message, "protocol violation: ResumeCall call_id 5 does not match 4");
    // ... and the suspension is still resumable correctly
    engine.raise("NameError", None);
    let event = resume_call(&mut child, &mut engine, call.call_id, ExtFunctionResult::NotFound("missing".to_owned()));
    assert_eq!(expect_error(event).exc_type, "NameError");
}

#[test]
fn version_skew_on_create_is_a_fatal_error() {
    let (mut child, mut engine) = session();
    let skewed = Configure { monty_version: "0.0.0-not-a-real-version".to_owned(), ..configure(false) };
    let (_, kind, outcome) = request(&mut child, &mut engine, RequestKind::Configure(skewed));
    match kind {
        EventKind::FatalError(message) => {
            assert!(message.contains("version skew"));
            assert_eq!(message, "version skew: parent=\"0.0.0-not-a-real-version\" child=\"0.1.0\"");
        }
        other => panic!("expected FatalError, got {other:?}"),
    }
    assert_eq!(outcome, HandleOutcome::Fatal);
    // an empty version opts out
    let lockstep = Configure { monty_version: String::new(), ..configure(false) };
    assert!(matches!(request(&mut child, &mut engine, RequestKind::Configure(lockstep)).1, EventKind::Okay));
}

#[test]
fn garbage_stdin_is_a_fatal_error() {
    let (mut child, mut engine) = session();
    // a length prefix far beyond any frame, and then the end of the stream
    let frame = match open_request(&[0xFF, 0xFF, 0xFF, 0x7F]) {
        OpenedRequest::Settled(frame) => frame,
        OpenedRequest::Body(_) => panic!("there is no body"),
    };
    let first = child.dispatch_into(frame);
    let (_, event, outcome) = turn(&mut child, &mut engine, first);
    match event.expect("event").kind {
        Some(EventKind::FatalError(message)) => assert!(message.contains("malformed request frame")),
        other => panic!("expected FatalError, got {other:?}"),
    }
    assert_eq!(outcome, HandleOutcome::Shutdown);
}

#[test]
fn reset_returns_child_to_idle_for_reuse() {
    let (mut child, mut engine) = session();
    create_repl(&mut child, &mut engine);
    engine.complete(MontyObject::NoneValue);
    assert_eq!(expect_complete(feed(&mut child, &mut engine, "x = 1").1), MontyObject::NoneValue);
    assert!(matches!(request(&mut child, &mut engine, RequestKind::Reset).1, EventKind::Okay));
    assert!(matches!(child.state, SessionState::Configured(None)));
    create_repl(&mut child, &mut engine);
    engine.suspend(SuspendedAt::NameLookup("x".to_owned()));
    let (_, event) = feed(&mut child, &mut engine, "x");
    let EventKind::NameLookup(name) = event else {
        panic!("expected NameLookup for undefined x, got {event:?}");
    };
    assert_eq!(name, "x");
    assert_eq!(engine.built.len(), 2);
}

#[test]
fn every_violation_has_its_message() {
    let (mut child, mut engine) = session();
    let message = |kind: EventKind| expect_error(kind).message.expect("message");
    let first = child.handle(ParentRequest { kind: None });
    let (_, event, _) = turn(&mut child, &mut engine, first);
    assert_eq!(
        message(event.expect("event").kind.expect("kind")),
        "protocol violation: request has no kind"
    );
    assert_eq!(
        message(feed(&mut child, &mut engine, "1").1),
        "protocol violation: session has not been configured"
    );
    assert_eq!(
        message(request(&mut child, &mut engine, RequestKind::Dump).1),
        "protocol violation: session has not been configured"
    );
    let kind = RequestKind::ResumeNameLookup(Ok(NameLookupResult::Undefined));
    assert_eq!(
        message(request(&mut child, &mut engine, kind).1),
        "protocol violation: ResumeNameLookup without a suspended name lookup"
    );
    let kind = RequestKind::ResumeFutures(Ok(vec![]));
    assert_eq!(
        message(request(&mut child, &mut engine, kind).1),
        "protocol violation: ResumeFutures without suspended futures"
    );
    let kind = RequestKind::ResumeCall { call_id: 0, result: Received::Missing };
    assert_eq!(
        message(request(&mut child, &mut engine, kind).1),
        "protocol violation: ResumeCall without a suspended function/OS call"
    );
    for (state, expected) in [
        (vec![], "dump state too short"),
        (vec![4, 0, 0], "unsupported dump version 4 (expected 5)"),
        (vec![5, 0], "dump state too short"),
        (vec![5, 0, 0, 1], "malformed dump session metadata"),
        (vec![5, 0, 9, 0, 0, 0, 0, 0], "unknown dump tag 9"),
    ] {
        let got = message(request(&mut child, &mut engine, RequestKind::Load(state)).1);
        assert_eq!(got, format!("protocol violation: {expected}"));
    }
    create_repl(&mut child, &mut engine);
    engine.suspend(function_call("f", vec![], 1));
    feed(&mut child, &mut engine, "f()");
    assert_eq!(
        message(feed(&mut child, &mut engine, "1").1),
        "protocol violation: Feed without a session ready for input"
    );
    assert_eq!(
        message(request(&mut child, &mut engine, RequestKind::Load(vec![])).1),
        "protocol violation: Load requires a session that has not started (a feed has already run)"
    );
    let kind = RequestKind::ResumeCall { call_id: 1, result: Received::Missing };
    assert_eq!(
        message(request(&mut child, &mut engine, kind).1),
        "protocol violation: ResumeCall has no result"
    );
    let kind = RequestKind::ResumeCall { call_id: 1, result: Received::Invalid("bad".to_owned()) };
    assert_eq!(
        message(request(&mut child, &mut engine, kind).1),
        "protocol violation: invalid result: bad"
    );
    engine.complete(MontyObject::NoneValue);
    resume_call(&mut child, &mut engine, 1, ExtFunctionResult::Return(MontyObject::NoneValue));
    let inputs = vec![NamedValue { name: "a\"b".to_owned(), value: Received::Missing }];
    assert_eq!(
        message(feed_with(&mut child, &mut engine, "1", inputs).1),
        "protocol violation: input \"a\\\"b\" has no value"
    );
    let inputs = vec![NamedValue { name: "a".to_owned(), value: Received::Invalid("depth".to_owned()) }];
    assert_eq!(
        message(feed_with(&mut child, &mut engine, "1", inputs).1),
        "protocol violation: invalid input \"a\": depth"
    );
}

#[test]
fn a_failed_load_can_be_followed_by_another() {
    let (mut child, mut engine) = session();
    create_repl(&mut child, &mut engine);
    engine.complete(MontyObject::NoneValue);
    feed(&mut child, &mut engine, "x = 1");
    let state = dump(&mut child, &mut engine);
    let (tag, meta, payload) = parse_dump(&state).ok().expect("dump");
    assert_eq!((tag, meta.script_name.as_str(), payload.as_slice()), (TAG_IDLE, "main.py", &b"idle state"[..]));

    let (mut fresh, mut engine) = session();
    engine.loads.push_back(LoadOutcome::IdleFailed("postcard".to_owned()));
    let (_, kind, _) = request(&mut fresh, &mut engine, RequestKind::Load(state.clone()));
    assert_eq!(
        expect_error(kind).message.as_deref(),
        Some("protocol violation: failed to load session: postcard")
    );
    assert!(matches!(fresh.state, SessionState::Configured(None)));
    assert_eq!(fresh.script_name, "");
    let first = fresh.handle(ParentRequest { kind: Some(RequestKind::Load(state)) });
    let (_, event, _) = turn(&mut fresh, &mut engine, first);
    assert_eq!(event.expect("event").restored_script_name.as_deref(), Some("main.py"));
    assert_eq!(fresh.script_name, "main.py");
}

#[test]
fn values_that_nest_too_deeply_are_refused() {
    let (mut child, mut engine) = session();
    create_repl(&mut child, &mut engine);
    engine.outcomes.push_back((
        vec![],
        Outcome::Complete { repl: "idle".to_owned(), value: MontyObject::NoneValue, too_deep: true },
    ));
    let error = expect_error(feed(&mut child, &mut engine, "deep").1);
    assert_eq!(error.message.as_deref(), Some("Max output depth exceeded"));
    engine.outcomes.push_back((
        vec![],
        Outcome::Suspended { at: function_call("f", vec![], 1), too_deep: true, suspension: "s".to_owned() },
    ));
    engine.complete(MontyObject::Int(1));
    assert_eq!(expect_complete(feed(&mut child, &mut engine, "f(deep)").1), MontyObject::Int(1));
    assert!(matches!(
        engine.resumed.as_slice(),
        [ResumeWith::Call(ExtFunctionResult::Error(e))] if e.message.as_deref() == Some("Max argument depth exceeded")
    ));
}

#[test]
fn oversize_announcements_abandon_the_feed() {
    let (mut child, mut engine) = session();
    create_repl_with(&mut child, &mut engine, configure(true));
    engine.encoded_len = 268_435_457;
    engine.suspend(function_call("f", vec![], 1));
    let error = expect_error(feed(&mut child, &mut engine, "f(big)").1);
    assert_eq!(
        error.message.as_deref(),
        Some("argument frame of 268435457 bytes exceeds the maximum of 268435456 bytes")
    );
    assert!(matches!(child.state, SessionState::Ready(_)));
    assert!(child.type_check.as_ref().expect("checking").pending_snippet.is_none());
}

#[test]
fn oversize_results_are_replaced_unless_suspended() {
    let (mut child, mut engine) = session();
    let err = || FrameError::FrameTooLarge { len: 9, max: 8 };
    let event = child.recover_send_error(err(), timing()).ok().expect("replacement");
    assert_eq!(
        expect_error(event.kind.expect("kind")).message.as_deref(),
        Some("result frame of 9 bytes exceeds the maximum of 8 bytes")
    );
    assert!(child.recover_send_error(FrameError::Truncated, timing()).is_err());
    create_repl(&mut child, &mut engine);
    engine.suspend(SuspendedAt::ResolveFutures(vec![1, 2]));
    let (_, event) = feed(&mut child, &mut engine, "gather()");
    assert!(matches!(event, EventKind::ResolveFutures(ids) if ids == vec![1, 2]));
    assert!(matches!(child.state, SessionState::Suspended(Pending::ResolveFutures, _)));
    assert!(child.recover_send_error(err(), timing()).is_err());
    let (message, outcome) = give_up(err());
    assert_eq!(message.as_deref(), Some("response frame of 9 bytes exceeds maximum of 8 bytes"));
    assert_eq!(outcome, HandleOutcome::Shutdown);
}

#[test]
fn only_a_session_has_accounting() {
    let (mut child, mut engine) = session();
    let event = child.fatal_event("bye", timing());
    assert_eq!(event.total_execution_micros, 0);
    create_repl(&mut child, &mut engine);
    engine.complete(MontyObject::NoneValue);
    feed(&mut child, &mut engine, "1");
    let event = child.fatal_event("bye", Timing { elapsed_micros: u128::MAX, max_duration_micros: Some(7) });
    assert_eq!(event.total_execution_micros, u64::MAX);
    assert_eq!(event.max_duration_micros, Some(7));
    assert!(matches!(fatal_error_event("x").kind, Some(EventKind::FatalError(m)) if m == "x"));
    assert!(matches!(protocol_violation("x").kind, Some(EventKind::Error(_))));
    // a snippet excluded from checking never becomes a stub
    let (mut child, mut engine) = session();
    create_repl_with(&mut child, &mut engine, configure(true));
    engine.complete(MontyObject::NoneValue);
    let kind = RequestKind::Feed(Feed { code: "z = 1".to_owned(), inputs: vec![], skip_type_check: true });
    request(&mut child, &mut engine, kind);
    assert_eq!(child.type_check.as_ref().expect("checking").committed_stubs, "");
    assert!(matches!(child.built("again".to_owned(), BuildFor::Dump), Step::DumpIdle));
}

#[test]
fn prints_are_cut_at_the_threshold() {
    let mut print = ProtoPrint::new();
    assert!(print.stdout_write("abc").is_empty());
    assert_eq!(print.stdout_push('\n').as_deref(), Some("abc\n"));
    assert!(print.drain().is_none());
    let long = "é".repeat(FLUSH_BYTES);
    let pieces = print.stdout_write(&long);
    assert!(pieces.iter().all(|p| !p.is_empty() && p.len() <= FLUSH_BYTES));
    let mut whole = pieces.concat();
    whole.extend(print.drain());
    assert_eq!(whole, long);
    // a line that ends inside the text does not flush
    assert!(print.stdout_write("a\nb").is_empty());
    assert_eq!(print.stdout_write("c\n"), vec!["a\nbc\n".to_owned()]);
    // a character that does not fit the room left behind flushes first
    let mut print = ProtoPrint::new();
    print.stdout_write(&"a".repeat(FLUSH_BYTES - 1));
    let pieces = print.stdout_write("é");
    assert_eq!(pieces, vec!["a".repeat(FLUSH_BYTES - 1)]);
    assert_eq!(print.drain().as_deref(), Some("é"));
    assert_eq!(floor_char_boundary("aé", 2), 1);
    assert_eq!(floor_char_boundary("aé", 3), 3);
    assert_eq!(floor_char_boundary("aé", 9), 3);
}

#[test]
fn failed_prints_raise_in_the_sandbox() {
    let exc = print_failure("broken pipe");
    assert_eq!(exc.exc_type, "RuntimeError");
    assert_eq!(exc.message.as_deref(), Some("failed to stream print output: broken pipe"));
    assert!(exc.traceback.frames.is_empty());
}

#[test]
fn only_shutdown_and_another_version_stop_the_child() {
    let kinds = || {
        vec![
            RequestKind::Dump,
            RequestKind::Reset,
            RequestKind::Load(vec![]),
            RequestKind::InstallDependencies(vec![]),
            RequestKind::ResumeNameLookup(Err("x".to_owned())),
            RequestKind::ResumeFutures(Ok(vec![])),
            RequestKind::ResumeCall { call_id: 1, result: Received::Missing },
            RequestKind::Configure(configure(false)),
        ]
    };
    for kind in kinds() {
        let mut child: Session = Child::new();
        let step = child.handle(ParentRequest { kind: Some(kind) });
        assert!(matches!(step, Step::Respond(_)), "{step:?}");
    }
    let mut child: Session = Child::new();
    let step = child.handle(ParentRequest { kind: Some(RequestKind::Shutdown) });
    assert!(matches!(step, Step::Send(_, HandleOutcome::Shutdown)));
    let skewed = Configure { monty_version: "0.0.0".to_owned(), ..configure(false) };
    let step = child.handle(ParentRequest { kind: Some(RequestKind::Configure(skewed)) });
    assert!(matches!(step, Step::Fatal(_, HandleOutcome::Fatal)));
    // a parent that ships with the child names no version
    let bundled = Configure { monty_version: String::new(), ..configure(false) };
    let step = child.handle(ParentRequest { kind: Some(RequestKind::Configure(bundled)) });
    assert!(matches!(step, Step::Respond(_)));
}

#[test]
fn idle_sessions_have_no_pending_snippet() {
    let (mut child, mut engine) = session();
    create_repl_with(&mut child, &mut engine, configure(true));
    engine.complete(MontyObject::NoneValue);
    feed(&mut child, &mut engine, "a = 1");
    let state = child.type_check.as_ref().expect("checking");
    assert_eq!(state.committed_stubs, "\na = 1");
    assert!(state.pending_snippet.is_none());
    engine.outcomes.push_back((
        vec![],
        Outcome::Failed { repl: "repl".to_owned(), error: raised("ValueError", Some("no"), false) },
    ));
    feed(&mut child, &mut engine, "b = 2");
    let state = child.type_check.as_ref().expect("checking");
    assert_eq!(state.committed_stubs, "\na = 1");
    assert!(state.pending_snippet.is_none());
}

#[test]
fn request_frames_are_told_apart() {
    assert!(matches!(open_request(&[]), OpenedRequest::Settled(RequestFrame::Empty)));
    assert!(matches!(open_request(&[2, 0, 0, 0, 7, 8]), OpenedRequest::Body(body) if body == [7, 8]));
    assert!(matches!(open_request(&[2, 0, 0]), OpenedRequest::Settled(RequestFrame::Broken(m))
        if m == "input ended within a frame"));
    assert!(matches!(open_request(&[1, 0, 0, 0x7F]), OpenedRequest::Settled(RequestFrame::Broken(m))
        if m == "frame of 2130706433 bytes exceeds maximum of 268435456 bytes"));
    assert!(matches!(decoded_request(Err("bad date".to_owned())), RequestFrame::Malformed(m) if m == "bad date"));
    assert!(matches!(decoded_request(Ok(ParentRequest { kind: None })), RequestFrame::Request(_)));
    assert_eq!(FrameError::Decode("x".to_owned()).text(), "invalid frame body: x");
    assert_eq!(FrameError::Io("gone".to_owned()).text(), "gone");
}

#[test]
fn a_default_child_has_no_session() {
    let child: Child<String, String> = Child::default();
    assert!(matches!(child.state, SessionState::Configured(None)));
    assert_eq!(child.script_name, "");
    assert!(child.type_check.is_none());
}

#[test]
fn frames_come_back_as_they_were_written() {
    let mut sink = VecEventSink::new();
    assert!(sink.send(b"one").is_ok());
    assert!(sink.send(b"").is_ok());
    let bytes = sink.take();
    assert_eq!(bytes, [3, 0, 0, 0, b'o', b'n', b'e', 0, 0, 0, 0]);
    assert!(sink.take().is_empty());
    let (body, rest) = read_frame(&bytes).ok().expect("frame").expect("body");
    assert_eq!(body, b"one");
    let (body, rest) = read_frame(rest).ok().expect("frame").expect("body");
    assert!(body.is_empty() && rest.is_empty());
    assert!(matches!(read_frame(&[]), Ok(None)));
    assert!(matches!(read_frame(&[1, 0]), Err(FrameError::Truncated)));
    assert!(matches!(read_frame(&[2, 0, 0, 0, 9]), Err(FrameError::Truncated)));
    let mut buf = Vec::new();
    let big = vec![0u8; MAX_FRAME_LEN as usize + 1];
    assert!(matches!(
        write_frame(&mut buf, &big),
        Err(FrameError::FrameTooLarge { len: 268_435_457, max: 268_435_456 })
    ));
    assert!(buf.is_empty());
}

#[test]
fn suspended_dumps_carry_their_tag() {
    let (mut child, mut engine) = session();
    create_repl(&mut child, &mut engine);
    engine.suspend(SuspendedAt::NameLookup("n".to_owned()));
    feed(&mut child, &mut engine, "n");
    let state = dump(&mut child, &mut engine);
    let (tag, _, payload) = parse_dump(&state).ok().expect("dump");
    assert_eq!((tag, payload.as_slice()), (TAG_SUSPENDED, &b"suspended state"[..]));
    // dumping leaves the session suspended
    assert!(matches!(child.state, SessionState::Suspended(Pending::NameLookup, _)));
}

#[test]
fn all_frames_are_read_back_in_order() {
    let mut sink = VecEventSink::new();
    let bodies: [&[u8]; 3] = [b"one", b"", b"three"];
    for body in bodies {
        assert!(sink.send(body).is_ok());
    }
    let bytes = sink.take();
    let mut rest: &[u8] = &bytes;
    let mut read = Vec::new();
    while let Some((body, next)) = read_frame(rest).ok().expect("frames") {
        read.push(body.to_vec());
        rest = next;
    }
    assert_eq!(read, bodies);
}
