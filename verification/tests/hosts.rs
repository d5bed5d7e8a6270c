use monty_host::checkout::{ExitStatus, MountSpecMode, Outgoing, PoolError, ResumeValue, TurnEvent, DEFAULT_ASSERT_BYTES};
use monty_host::exc::{py_err_to_exc_type, ExcType};
use monty_host::fs_error::MountError;
use monty_host::js::{
    check_pool_sizes, checkout_config, closed_outcome, convert_inputs, exception_from_parts, exception_to_js,
    frame_to_js, future_answer, mount_spec, resolve_lookup, restore_outcome, sendable_resume, turn_outcome,
    turn_to_js, JsField, JsFuture, JsValue, NativeCheckoutOptions, NativeMount, NativePoolSizes, PendingNotHandled,
    TurnOutcome,
};
use monty_host::host_path::{HostComponent, HostPath};
use monty_host::mount_table::{HostDirectory, DEFAULT_MEMORY_USAGE_LIMIT};
use monty_host::proto::{
    CodeLoc, ExtFunctionResult, FunctionCall, MontyObject, NameLookupResult, RaisedException, StackFrame, Traceback,
    UnicodeErrorData, UnicodeErrorObject,
};
use monty_host::py_exceptions::{
    build_traceback_list, exc_monty_to_py, exc_py_to_monty, exc_to_monty_object, parse_display_format, pool_err_to_py, DisplayFormat,
    MontyCrashedError, MontyError, MontyTypingError, PyFailure, SandboxError,
};
use monty_host::python::{
    accept_idle, accept_snapshot, annotation_bytes, check_os_callable, discard_after_turn, dispatch_os_parts,
    ext_to_resume, finalize_turn, mount_dir, mount_mode_name, mount_repr, mount_spec_mode, parse_pool_config,
    parse_websocket_config, turn_answer, turn_dispatch, AnnotationsArg, CallbackOutcome, Dispatch, OsCallback,
    PoolConfig, PrintFailure, SessionUse, TurnAnswer, TurnFailure,
};
use monty_host::repl::{feed_start_loop, resolve_name, AwaitStep, CleanupStartGuard, LazyStart, ReplEvent, ReplSlot, ReplStep};

fn raised(exc_type: &str, message: &str) -> RaisedException {
    RaisedException {
        exc_type: exc_type.to_owned(),
        message: Some(message.to_owned()),
        traceback: Traceback::empty(),
        data: None,
    }
}

fn frame(line: u32, preview: Option<usize>) -> StackFrame {
    StackFrame {
        filename: "main.py".to_owned(),
        start: CodeLoc { line, column: 5 },
        end: CodeLoc { line, column: 9 },
        frame_name: Some("f".to_owned()),
        preview_line: preview,
        hide_caret: false,
        hide_frame_name: false,
    }
}

fn says(exc: &RaisedException, exc_type: &str, message: &str) -> bool {
    exc.exc_type == exc_type && exc.message.as_deref() == Some(message)
}

// --- exceptions ---

/// The classes that a Python exception of a type is an instance of.
fn classes(exc_type: ExcType) -> Vec<ExcType> {
    ExcType::all().into_iter().filter(|c| is_a(exc_type, *c)).collect()
}

/// Every exception is one of itself and of the bases that matter here.
fn is_a(exc_type: ExcType, class: ExcType) -> bool {
    exc_type == class
        || class == ExcType::BaseException
        || class == ExcType::Exception
            && !matches!(exc_type, ExcType::BaseException | ExcType::SystemExit | ExcType::KeyboardInterrupt)
        || matches!(
            (exc_type, class),
            (ExcType::KeyError | ExcType::IndexError, ExcType::LookupError)
                | (ExcType::ZeroDivisionError | ExcType::OverflowError, ExcType::ArithmeticError)
                | (ExcType::NotImplementedError | ExcType::RecursionError, ExcType::RuntimeError)
                | (ExcType::FrozenInstanceError, ExcType::AttributeError)
                | (ExcType::UnboundLocalError, ExcType::NameError)
                | (
                    ExcType::JsonDecodeError
                        | ExcType::UnicodeDecodeError
                        | ExcType::UnicodeEncodeError
                        | ExcType::UnsupportedOperation,
                    ExcType::ValueError
                )
                | (
                    ExcType::FileNotFoundError
                        | ExcType::FileExistsError
                        | ExcType::IsADirectoryError
                        | ExcType::NotADirectoryError
                        | ExcType::PermissionError
                        | ExcType::TimeoutError
                        | ExcType::UnsupportedOperation,
                    ExcType::OSError
                )
                | (ExcType::ModuleNotFoundError, ExcType::ImportError)
        )
}

#[test]
fn python_exceptions_come_back_as_they_were() {
    for exc_type in ExcType::all() {
        let expected = match exc_type {
            ExcType::ImportError
            | ExcType::ModuleNotFoundError
            | ExcType::StopIteration
            | ExcType::RePatternError => ExcType::Exception,
            other => other,
        };
        assert_eq!(py_err_to_exc_type(&classes(exc_type)), expected, "{exc_type:?}");
        assert_eq!(ExcType::parse(&exc_type.to_text()), Some(exc_type));
    }
    assert_eq!(ExcType::parse("Nonsense"), None);
    assert_eq!(py_err_to_exc_type(&vec![]), ExcType::BaseException);
    let exc = exc_py_to_monty(&classes(ExcType::KeyError), Some("'k'".to_owned()));
    assert!(says(&exc, "KeyError", "'k'"));
    assert_eq!(
        exc_to_monty_object(&classes(ExcType::SystemExit), None),
        MontyObject::Exception { exc_type: ExcType::SystemExit, arg: None }
    );
}

#[test]
fn classes_that_cannot_be_built_have_stand_ins() {
    let plan = |t| exc_monty_to_py(t, raised("", "m")).plan;
    assert_eq!((plan(ExcType::UnicodeEncodeError).class, plan(ExcType::UnicodeEncodeError).structured), (ExcType::ValueError, false));
    let fallback = |t| plan(t).fallback;
    assert_eq!(fallback(ExcType::FrozenInstanceError), ExcType::AttributeError);
    assert_eq!(fallback(ExcType::JsonDecodeError), ExcType::ValueError);
    assert_eq!(fallback(ExcType::UnsupportedOperation), ExcType::OSError);
    assert_eq!(fallback(ExcType::RePatternError), ExcType::RuntimeError);
    assert_eq!(fallback(ExcType::KeyError), ExcType::KeyError);
}

#[test]
fn codec_errors_keep_their_fields() {
    let data = UnicodeErrorData {
        encoding: "utf-8".to_owned(),
        object: UnicodeErrorObject::Bytes(vec![0x61, 0xff]),
        start: 1,
        end: 2,
        reason: "invalid start byte".to_owned(),
    };
    let exc = RaisedException { data: Some(data), ..raised("UnicodeDecodeError", "bad byte") };
    let native = exc_monty_to_py(ExcType::UnicodeDecodeError, exc.duplicate());
    assert!(native.plan.structured);
    assert_eq!((native.plan.class, native.plan.fallback), (ExcType::UnicodeDecodeError, ExcType::ValueError));
    let data = native.data.expect("fields");
    assert_eq!((data.encoding.as_str(), data.start, data.end, data.reason.as_str()), ("utf-8", 1, 2, "invalid start byte"));
    assert!(matches!(data.object, UnicodeErrorObject::Bytes(bytes) if bytes == [0x61, 0xff]));
    assert_eq!(native.message, "bad byte");
}

#[test]
fn tracebacks_are_folded_into_the_message() {
    let exc = RaisedException {
        traceback: Traceback {
            frames: vec![StackFrame { frame_name: None, ..frame(7, None) }, frame(3, Some(0))],
            previews: vec!["raise ValueError('boom')".to_owned()],
        },
        ..raised("ValueError", "boom")
    };
    let native = exc_monty_to_py(ExcType::ValueError, exc);
    assert_eq!(native.plan.class, ExcType::ValueError);
    assert_eq!(
        native.message,
        "boom\n  File \"main.py\", line 7, in <module>\n  File \"main.py\", line 3, in f\n    raise ValueError('boom')"
    );
    let silent = RaisedException { message: None, ..raised("KeyError", "") };
    assert_eq!(exc_monty_to_py(ExcType::KeyError, silent).message, "");
}

#[test]
fn errors_describe_themselves() {
    let error = MontyError::new(raised("ValueError", "boom"));
    assert_eq!((error.str_text().as_str(), error.repr_text().as_str()), ("boom", "MontyError(ValueError: boom)"));
    let bare = MontyError::new(RaisedException { message: None, ..raised("ValueError", "") });
    assert_eq!((bare.str_text().as_str(), bare.repr_text().as_str()), ("", "MontyError(ValueError)"));
    match MontyError::new_err(raised("SyntaxError", "bad")) {
        SandboxError::Syntax(e) => {
            assert_eq!((e.str_text().as_str(), e.repr_text().as_str()), ("bad", "MontySyntaxError(bad)"));
        }
        SandboxError::Runtime(_) => panic!("a syntax error has a class of its own"),
    }
    let traced = RaisedException {
        traceback: Traceback { frames: vec![frame(3, None)], previews: vec![] },
        ..raised("KeyError", "'k'")
    };
    match MontyError::new_err(traced) {
        SandboxError::Runtime(e) => {
            assert_eq!(e.base.exc.traceback.frames.len(), 1);
            assert_eq!(e.str_text(), "KeyError: 'k'");
            assert_eq!(e.repr_text(), "MontyRuntimeError(KeyError: 'k')");
        }
        SandboxError::Syntax(_) => panic!("only syntax errors have that class"),
    }
    match MontyError::new_err(raised("KeyError", "")) {
        SandboxError::Runtime(e) => assert_eq!(e.repr_text(), "MontyRuntimeError(KeyError)"),
        SandboxError::Syntax(_) => panic!("only syntax errors have that class"),
    }
    let typing = MontyTypingError::new_err("line 1".to_owned());
    assert_eq!((typing.str_text().as_str(), typing.repr_text().as_str()), ("line 1", "MontyTypingError(line 1)"));
    let crashed = MontyCrashedError::new_err("gone".to_owned(), true, None);
    assert_eq!(crashed.repr_text(), "MontyCrashedError(gone)");
    assert_eq!(parse_display_format("traceback").ok(), Some(DisplayFormat::Traceback));
    assert_eq!(parse_display_format("type-msg").ok(), Some(DisplayFormat::TypeMsg));
    assert_eq!(parse_display_format("msg").ok(), Some(DisplayFormat::Msg));
    assert_eq!(
        parse_display_format("x").err().as_deref(),
        Some("Invalid display format: 'x'. Expected 'traceback', 'type-msg', or 'msg'")
    );
}

#[test]
fn deep_recursion_shares_one_source_line() {
    let traceback = Traceback {
        frames: vec![frame(9, Some(1)), frame(2, Some(0)), frame(2, None), frame(2, Some(0)), frame(9, Some(1))],
        previews: vec!["f()".to_owned(), "g()".to_owned()],
    };
    let frames = build_traceback_list(&traceback);
    let sources: Vec<Option<usize>> = frames.iter().map(|f| f.source_line).collect();
    assert_eq!(sources, vec![Some(0), Some(1), None, Some(1), Some(0)]);
    assert_eq!((frames[0].line, frames[0].column, frames[0].end_line, frames[0].end_column), (9, 5, 9, 9));
    assert_eq!(frames[0].repr_text(), "Frame(filename='main.py', line=9, column=5, function_name='f')");
    let module = Traceback { frames: vec![StackFrame { frame_name: None, ..frame(1, None) }], previews: vec![] };
    assert_eq!(
        build_traceback_list(&module)[0].repr_text(),
        "Frame(filename='main.py', line=1, column=5, function_name='<module>')"
    );
}

#[test]
fn pool_failures_have_their_exceptions() {
    let text = || "words".to_owned();
    let killed = ExitStatus { code: Some(3), text: "exit status: 3".to_owned() };
    let crash = PoolError::Crashed { status: Some(killed), context: "x".to_owned() };
    assert!(matches!(pool_err_to_py(crash, text()),
        PyFailure::Crashed(e) if !e.timed_out && e.exit_status == Some(3) && e.base.exc.message.as_deref() == Some("words")));
    assert!(matches!(pool_err_to_py(PoolError::Timeout { timeout: 1 }, text()),
        PyFailure::Crashed(e) if e.timed_out && e.exit_status.is_none()));
    assert!(matches!(pool_err_to_py(PoolError::Exhausted, text()), PyFailure::Timeout(m) if m == "words"));
    assert!(matches!(pool_err_to_py(PoolError::Finished, text()), PyFailure::Runtime(m) if m == "words"));
    assert!(matches!(pool_err_to_py(PoolError::Spawn(text()), text()), PyFailure::Runtime(_)));
    assert!(matches!(pool_err_to_py(PoolError::Protocol(text()), text()), PyFailure::Runtime(_)));
    assert!(matches!(pool_err_to_py(PoolError::Typing("t".to_owned()), text()),
        PyFailure::Typing(e) if e.rendered == "t"));
    assert!(matches!(pool_err_to_py(PoolError::Runtime(raised("KeyError", "k")), text()),
        PyFailure::Sandbox(e) if says(&e, "KeyError", "k")));
}

// --- the Python host ---

fn function_call(method_call: bool) -> TurnEvent {
    TurnEvent::FunctionCall {
        function_name: "f".to_owned(),
        args: vec![MontyObject::Int(1)],
        kwargs: vec![],
        call_id: 4,
        method_call,
    }
}

fn os_call(not_handled_error: Option<RaisedException>) -> TurnEvent {
    TurnEvent::OsCall {
        function_name: "Path.stat".to_owned(),
        args: vec![],
        kwargs: vec![],
        call_id: 5,
        not_handled_error,
    }
}

#[test]
fn turns_are_dispatched_by_kind() {
    assert!(matches!(turn_dispatch(function_call(true), false), Dispatch::Method { call_id: 4, .. }));
    assert!(matches!(turn_dispatch(function_call(false), false), Dispatch::External { call_id: 4, .. }));
    assert!(matches!(turn_dispatch(os_call(None), true), Dispatch::Os { function_name, .. } if function_name == "Path.stat"));
    assert!(matches!(turn_dispatch(TurnEvent::NameLookup { name: "n".to_owned() }, true), Dispatch::Name(n) if n == "n"));
    assert!(matches!(turn_dispatch(TurnEvent::Complete(MontyObject::Int(2)), true), Dispatch::Return(MontyObject::Int(2))));
    let futures = || TurnEvent::ResolveFutures { pending_call_ids: vec![7] };
    assert!(matches!(turn_dispatch(futures(), true), Dispatch::Futures(ids) if ids == [7]));
    assert!(matches!(turn_dispatch(futures(), false),
        Dispatch::Fail(m) if m == "async external functions require AsyncMonty"));
}

#[test]
fn callbacks_become_answers() {
    let returned = |result| turn_answer(CallbackOutcome::Returned(result, false));
    assert!(matches!(returned(ExtFunctionResult::Return(MontyObject::Int(1))),
        Ok(TurnAnswer::Call(ResumeValue::Return(Outgoing { value: MontyObject::Int(1), too_deep: false })))));
    assert!(matches!(returned(ExtFunctionResult::NotFound("f".to_owned())), Ok(TurnAnswer::Call(ResumeValue::NotFound))));
    assert_eq!(returned(ExtFunctionResult::Future(3)).err().as_deref(), Some("unexpected future result"));
    assert!(matches!(turn_answer(CallbackOutcome::Coroutine), Ok(TurnAnswer::Call(ResumeValue::Future))));
    assert!(matches!(turn_answer(CallbackOutcome::Name(None)), Ok(TurnAnswer::Name(None))));
    assert_eq!(turn_answer(CallbackOutcome::Failed("no".to_owned())).err().as_deref(), Some("no"));
    let results = vec![
        (9, ExtFunctionResult::Return(MontyObject::NoneValue), true),
        (2, ExtFunctionResult::Error(raised("ValueError", "v")), false),
    ];
    match turn_answer(CallbackOutcome::Futures(results)) {
        Ok(TurnAnswer::Futures(answers)) => {
            assert_eq!((answers[0].0, answers[1].0), (9, 2));
            assert!(matches!(answers[0].1, ResumeValue::Return(Outgoing { too_deep: true, .. })));
            assert!(matches!(&answers[1].1, ResumeValue::Error(e) if says(e, "ValueError", "v")));
        }
        _ => panic!("both futures resolved"),
    }
    let pending = vec![(1, ExtFunctionResult::Future(1), false)];
    assert_eq!(turn_answer(CallbackOutcome::Futures(pending)).err().as_deref(), Some("unexpected future result"));
    assert!(ext_to_resume(ExtFunctionResult::Error(raised("A", "b")), false).is_ok());
}

#[test]
fn os_calls_fall_back_to_their_own_error() {
    let own = || Some(raised("PermissionError", "denied"));
    assert!(matches!(dispatch_os_parts("Path.stat", own(), OsCallback::NotHandled),
        ExtFunctionResult::Error(e) if says(&e, "PermissionError", "denied")));
    assert!(matches!(dispatch_os_parts("Path.stat", None, OsCallback::NotHandled), ExtFunctionResult::Error(e)
        if says(&e, "RuntimeError", "'Path.stat' is not supported in this environment")));
    assert!(matches!(dispatch_os_parts("Path.stat", own(), OsCallback::Returned(MontyObject::Int(1))),
        ExtFunctionResult::Return(MontyObject::Int(1))));
    assert!(matches!(dispatch_os_parts("Path.stat", own(), OsCallback::Raised(raised("KeyError", "k"))),
        ExtFunctionResult::Error(e) if says(&e, "KeyError", "k")));
}

#[test]
fn print_failures_take_precedence() {
    let mut prints = PrintFailure::new();
    prints.note(Ok(()));
    assert!(prints.writes());
    prints.note(Err(raised("ValueError", "first")));
    assert!(!prints.writes());
    prints.note(Err(raised("ValueError", "second")));
    let failure = prints.into_first();
    assert!(failure.as_ref().is_some_and(|e| says(e, "ValueError", "first")));
    let suspended: Result<TurnEvent, PoolError> = Ok(function_call(false));
    assert!(discard_after_turn(&suspended, true) && !discard_after_turn(&suspended, false));
    let complete: Result<TurnEvent, PoolError> = Ok(TurnEvent::Complete(MontyObject::NoneValue));
    assert!(!discard_after_turn(&complete, true));
    assert!(!discard_after_turn(&Err(PoolError::Finished), true));
    assert!(matches!(finalize_turn(complete, failure), Err(TurnFailure::Print(e)) if says(&e, "ValueError", "first")));
    assert!(matches!(finalize_turn(Err(PoolError::Finished), None), Err(TurnFailure::Pool(PoolError::Finished))));
    assert!(finalize_turn(suspended, None).is_ok());
}

#[test]
fn only_fresh_sessions_can_be_restored() {
    let mut session = SessionUse::fresh();
    assert!(session.claim().is_ok());
    assert_eq!(
        session.claim().err().as_deref(),
        Some("load / load_snapshot is only valid on a fresh session, before any feed_run / feed_start / load / load_snapshot")
    );
    let mut fed = SessionUse::fresh();
    fed.mark_used();
    assert!(fed.claim().is_err());
    assert!(accept_idle(None).is_ok());
    assert_eq!(
        accept_idle(Some(function_call(false))).err().as_deref(),
        Some("this dump is a suspended snapshot — use load_snapshot() to resume it")
    );
    assert_eq!(
        accept_snapshot(None, None, "main.py").err().as_deref(),
        Some("this dump is an idle session — use load() to restore it")
    );
    let restored = accept_snapshot(Some(function_call(false)), Some("old.py".to_owned()), "main.py");
    assert_eq!(restored.ok().map(|r| r.1).as_deref(), Some("old.py"));
    let unnamed = accept_snapshot(Some(function_call(false)), None, "main.py");
    assert_eq!(unnamed.ok().map(|r| r.1).as_deref(), Some("main.py"));
}

#[test]
fn python_arguments_are_checked() {
    assert_eq!(annotation_bytes(AnnotationsArg::Bool(true)).ok(), Some(DEFAULT_ASSERT_BYTES));
    assert_eq!(annotation_bytes(AnnotationsArg::Bool(false)).ok(), Some(0));
    assert_eq!(annotation_bytes(AnnotationsArg::Int(Some(7))).ok(), Some(7));
    for bad in [AnnotationsArg::Int(Some(0)), AnnotationsArg::Int(None)] {
        let error = annotation_bytes(bad).err().expect("an error");
        assert_eq!(error.exc_type, ExcType::ValueError);
        assert_eq!(error.message, "assert_message_annotations int value must be between 1 and 2**32 - 1");
    }
    let error = annotation_bytes(AnnotationsArg::Other).err().expect("an error");
    assert_eq!(error.exc_type, ExcType::TypeError);
    assert!(check_os_callable(true, "int").is_ok());
    let error = check_os_callable(false, "int").err().expect("an error");
    assert_eq!(error.message, "'int' object is not callable");
    assert_eq!(mount_spec_mode("overlay").ok(), Some(MountSpecMode::Overlay));
    let error = mount_spec_mode("rw\n").err().expect("an error");
    assert_eq!(error.message, "unknown mount mode \"rw\\n\"");
    assert_eq!(mount_mode_name(MountSpecMode::ReadOnly), "read-only");
    assert_eq!(mount_repr("/mnt", "/host", MountSpecMode::ReadWrite), "MountDir('/mnt', '/host', 'read-write')");
    let found = || HostDirectory::Found(HostPath { components: vec![HostComponent::RootDir] });
    let spec = mount_dir("/a/./b/", "h", found(), "/host/h".to_owned(), MountSpecMode::Overlay, Some(3), 9)
        .ok()
        .expect("a usable mount");
    assert_eq!((spec.virtual_path.as_str(), spec.host_path.as_str()), ("/a/b", "/host/h"));
    assert_eq!((spec.mode, spec.write_bytes_limit, spec.memory_usage_limit), (MountSpecMode::Overlay, Some(3), 9));
    assert!(matches!(
        mount_dir("a", "h", found(), String::new(), MountSpecMode::Overlay, None, 9),
        Err(MountError::InvalidMount(m)) if m == "virtual path must be absolute, got: 'a'"
    ));
    let defaults = PoolConfig {
        min_processes: 0,
        max_processes: 8,
        checkout_timeout: None,
        request_timeout: None,
        max_checkouts_per_worker: None,
    };
    let config = parse_pool_config(defaults, 2, None, Some(5), None, Some(9));
    assert_eq!((config.min_processes, config.max_processes), (2, 8));
    assert_eq!((config.checkout_timeout, config.max_checkouts_per_worker), (Some(5), Some(9)));
    let config = parse_websocket_config(defaults, Some(3), None, Some(7));
    assert_eq!((config.min_processes, config.max_processes, config.request_timeout), (0, 3, Some(7)));
}

// --- the in-process session ---

#[test]
fn a_running_session_cannot_be_taken_twice() {
    let mut slot = ReplSlot::new(1);
    assert_eq!(slot.take_repl().ok(), Some(1));
    assert_eq!(
        slot.take_repl().err().as_deref(),
        Some("REPL session is currently executing another snippet")
    );
    slot.put_repl(2);
    assert_eq!(slot.take_repl().ok(), Some(2));
    let mut empty: ReplSlot<u8> = ReplSlot::empty_owner();
    assert!(empty.take_repl().is_err());
    let mut guard = CleanupStartGuard::new();
    assert!(guard.finish_on_drop());
    guard.disarm();
    assert!(!guard.finish_on_drop());
}

#[test]
fn suspensions_are_answered_by_what_was_given() {
    let call = |name: &str, method_call| {
        ReplEvent::FunctionCall(FunctionCall {
            function_name: name.to_owned(),
            args: vec![],
            kwargs: vec![],
            call_id: 0,
            method_call,
        })
    };
    assert!(matches!(feed_start_loop(call("ext:0:f", true), false, false), ReplStep::Method(_)));
    assert!(matches!(feed_start_loop(call("ext:0:f", false), true, false), ReplStep::HostExtension(_)));
    assert!(matches!(feed_start_loop(call("f", false), true, false), ReplStep::External(_)));
    assert!(matches!(feed_start_loop(call("f", false), false, true), ReplStep::Abort(m)
        if m == "External function 'f' called but no external_functions provided"));
    assert!(matches!(feed_start_loop(ReplEvent::NameLookup("n".to_owned()), false, true),
        ReplStep::ResumeName(NameLookupResult::Undefined)));
    assert!(matches!(feed_start_loop(ReplEvent::NameLookup("n".to_owned()), true, true), ReplStep::LookUp(n) if n == "n"));
    let os = || ReplEvent::OsCall { function_name: "os.getenv".to_owned() };
    assert!(matches!(feed_start_loop(os(), false, true), ReplStep::CallOs(n) if n == "os.getenv"));
    assert!(matches!(feed_start_loop(os(), true, false), ReplStep::ResumeError(e)
        if says(&e, "NotImplementedError", "OS function 'os.getenv' not implemented")));
    assert!(matches!(feed_start_loop(ReplEvent::ResolveFutures, true, true), ReplStep::Abort(m)
        if m == "async futures not supported with `MontyRepl.feed_run`"));
    assert!(matches!(feed_start_loop(ReplEvent::Complete(MontyObject::Int(1)), true, true),
        ReplStep::Finish(MontyObject::Int(1))));
    assert!(matches!(resolve_name("n".to_owned(), Some(Some("doc".to_owned()))),
        NameLookupResult::Value(MontyObject::Function { name, docstring: Some(d) }) if name == "n" && d == "doc"));
    assert!(matches!(resolve_name("n".to_owned(), None), NameLookupResult::Undefined));
}

#[test]
fn awaiting_starts_a_snippet_once() {
    let mut lazy = LazyStart::new("code");
    assert!(matches!(lazy.get_or_start_future(), AwaitStep::Start("code")));
    assert!(matches!(lazy.get_or_start_future(), AwaitStep::Fail(m) if m == "Awaitable is currently starting"));
    assert_eq!(lazy.started().ok(), Some(true));
    assert!(matches!(lazy.get_or_start_future(), AwaitStep::UseExisting));
    assert_eq!(lazy.started().ok(), Some(false));
}

// --- the JavaScript host ---

fn keys(fields: &[(String, JsField)]) -> Vec<&str> {
    fields.iter().map(|f| f.0.as_str()).collect()
}

fn kind(fields: &[(String, JsField)]) -> &str {
    match &fields[0] {
        (key, JsField::Text(kind)) if key == "kind" => kind,
        other => panic!("{other:?}"),
    }
}

fn object(outcome: TurnOutcome) -> Vec<(String, JsField)> {
    turn_to_js(outcome).ok().expect("an object")
}

#[test]
fn turn_objects_have_fixed_keys() {
    let fields = object(TurnOutcome::Event(function_call(true)));
    assert_eq!(kind(&fields), "functionCall");
    assert_eq!(keys(&fields), ["kind", "functionName", "args", "kwargs", "callId", "methodCall"]);
    let fields = object(TurnOutcome::Event(os_call(Some(raised("A", "b")))));
    assert_eq!(kind(&fields), "osCall");
    assert_eq!(keys(&fields).last(), Some(&"notHandledError"));
    assert_eq!(object(TurnOutcome::Event(os_call(None))).len(), 5);
    for (outcome, expected, second) in [
        (TurnOutcome::Event(TurnEvent::Complete(MontyObject::NoneValue)), "complete", Some("value")),
        (TurnOutcome::Event(TurnEvent::NameLookup { name: "__proto__".to_owned() }), "nameLookup", Some("name")),
        (
            TurnOutcome::Event(TurnEvent::ResolveFutures { pending_call_ids: vec![1] }),
            "resolveFutures",
            Some("pendingCallIds"),
        ),
        (TurnOutcome::Runtime(raised("A", "b")), "error", Some("exception")),
        (TurnOutcome::Typing("t".to_owned()), "typingError", Some("diagnostics")),
        (closed_outcome(), "protocol", Some("message")),
        (TurnOutcome::LoadedIdle, "loaded", None),
        (TurnOutcome::Done, "ok", None),
    ] {
        let fields = object(outcome);
        assert_eq!(kind(&fields), expected);
        assert_eq!(keys(&fields).get(1).copied(), second);
    }
}

#[test]
fn pool_failures_are_turn_objects_too() {
    let text = || "words".to_owned();
    let killed = ExitStatus { code: None, text: "signal: 9 (SIGKILL)".to_owned() };
    let crash = PoolError::Crashed { status: Some(killed), context: "waiting for a reply".to_owned() };
    let fields = object(turn_outcome(Err(crash), text()));
    assert_eq!(keys(&fields), ["kind", "message", "timedOut", "exitStatus"]);
    assert!(matches!(&fields[1].1, JsField::Text(m) if m == "monty worker crashed while waiting for a reply"));
    assert!(matches!(fields[2].1, JsField::Flag(false)));
    assert!(matches!(&fields[3].1, JsField::Text(s) if s == "signal: 9 (SIGKILL)"));
    let fields = object(turn_outcome(Err(PoolError::Timeout { timeout: 1 }), text()));
    assert_eq!(keys(&fields), ["kind", "message", "timedOut"]);
    assert!(matches!(&fields[1].1, JsField::Text(m) if m == "words"));
    assert!(matches!(turn_outcome(Err(PoolError::Finished), text()), TurnOutcome::Protocol(m) if m == "words"));
    assert!(matches!(turn_outcome(Err(PoolError::Typing(text())), text()), TurnOutcome::Typing(_)));
    assert!(matches!(restore_outcome(Ok((None, None)), text()), TurnOutcome::LoadedIdle));
    assert!(matches!(restore_outcome(Ok((Some(os_call(None)), None)), text()), TurnOutcome::Event(_)));
    assert!(matches!(restore_outcome(Err(PoolError::Exhausted), text()), TurnOutcome::Protocol(_)));
}

#[test]
fn declining_raises_the_exception_of_the_call() {
    let mut pending = PendingNotHandled::new();
    assert!(matches!(pending.resume_not_handled(), ResumeValue::Error(e)
        if says(&e, "RuntimeError", "OS call is not supported")));
    let own = RaisedException {
        traceback: Traceback { frames: vec![frame(3, Some(0))], previews: vec!["open()".to_owned()] },
        ..raised("FileNotFoundError", "gone")
    };
    pending.note(&TurnOutcome::Event(os_call(Some(own))));
    pending.note(&TurnOutcome::Done);
    match pending.resume_not_handled() {
        ResumeValue::Error(e) => {
            assert!(says(&e, "FileNotFoundError", "gone"));
            assert_eq!((e.traceback.frames.len(), e.traceback.previews[0].as_str()), (1, "open()"));
        }
        other => panic!("{other:?}"),
    }
    assert!(matches!(pending.resume_not_handled(), ResumeValue::Error(e) if e.exc_type == "RuntimeError"));
}

fn outgoing(too_deep: bool) -> Outgoing {
    Outgoing { value: MontyObject::Int(1), too_deep }
}

#[test]
fn values_cross_or_become_errors() {
    assert!(matches!(sendable_resume(JsValue::Converted(outgoing(false))), ResumeValue::Return(_)));
    assert!(matches!(sendable_resume(JsValue::Converted(outgoing(true))), ResumeValue::Error(e)
        if says(&e, "RuntimeError", "Max input depth exceeded")));
    assert!(matches!(sendable_resume(JsValue::Unconvertible("symbol".to_owned())), ResumeValue::Error(e)
        if says(&e, "TypeError", "symbol")));
    assert_eq!(exception_from_parts("KeyError", "k".to_owned()).exc_type, "KeyError");
    assert_eq!(exception_from_parts("RangeError", "k".to_owned()).exc_type, "RuntimeError");
    assert!(matches!(resolve_lookup(Some("f".to_owned()), Some(outgoing(false))),
        Ok(Some(Outgoing { value: MontyObject::Int(1), .. }))));
    assert!(matches!(resolve_lookup(Some("f".to_owned()), None),
        Ok(Some(Outgoing { value: MontyObject::Function { name, docstring: None }, .. })) if name == "f"));
    assert!(matches!(resolve_lookup(None, None), Ok(None)));
    assert_eq!(resolve_lookup(None, Some(outgoing(true))).err().as_deref(), Some("Max input depth exceeded"));
    let inputs = vec![("a".to_owned(), None), ("b".to_owned(), Some(outgoing(false)))];
    let inputs = convert_inputs(inputs).ok().expect("inputs");
    assert_eq!((inputs[0].0.as_str(), &inputs[0].1.value), ("a", &MontyObject::NoneValue));
    assert_eq!((inputs[1].0.as_str(), &inputs[1].1.value), ("b", &MontyObject::Int(1)));
    assert_eq!(
        convert_inputs(vec![("a".to_owned(), Some(outgoing(true)))]).err().as_deref(),
        Some("Max input depth exceeded")
    );
}

#[test]
fn settled_promises_need_their_fields() {
    let nothing =
        || JsFuture { call_id: None, ok: None, value: None, exc_type: None, message: None };
    let error = |f| future_answer(f).err().expect("an error");
    assert_eq!(error(nothing()), "missing required field callId");
    assert_eq!(error(JsFuture { call_id: Some(1), ..nothing() }), "missing required field ok");
    let failed = || JsFuture { call_id: Some(1), ok: Some(false), ..nothing() };
    assert_eq!(error(failed()), "missing required field excType");
    assert_eq!(error(JsFuture { exc_type: Some("KeyError".to_owned()), ..failed() }), "missing required field message");
    let full = JsFuture { exc_type: Some("KeyError".to_owned()), message: Some("k".to_owned()), ..failed() };
    assert!(matches!(future_answer(full), Ok((1, ResumeValue::Error(e))) if says(&e, "KeyError", "k")));
    let settled = || JsFuture { call_id: Some(2), ok: Some(true), ..nothing() };
    assert!(matches!(future_answer(settled()),
        Ok((2, ResumeValue::Return(Outgoing { value: MontyObject::NoneValue, .. })))));
    let value = JsFuture { value: Some(JsValue::Converted(outgoing(false))), ..settled() };
    assert!(matches!(future_answer(value), Ok((2, ResumeValue::Return(Outgoing { value: MontyObject::Int(1), .. })))));
}

#[test]
fn frames_and_exceptions_are_objects() {
    let traceback = Traceback { frames: vec![frame(3, Some(0))], previews: vec!["f()".to_owned()] };
    let fields = frame_to_js(&traceback, 0);
    assert_eq!(
        keys(&fields),
        ["filename", "line", "column", "endLine", "endColumn", "frameName", "previewLine", "hideCaret", "hideFrameName"]
    );
    assert!(matches!(&fields[6].1, JsField::Text(line) if line == "f()"));
    let bare = Traceback { frames: vec![StackFrame { frame_name: None, ..frame(3, None) }], previews: vec![] };
    assert_eq!(frame_to_js(&bare, 0).len(), 7);
    let exc = RaisedException {
        traceback: Traceback { frames: vec![frame(3, Some(0)), frame(4, None)], previews: vec!["f()".to_owned()] },
        ..raised("KeyError", "k")
    };
    let object = exception_to_js(&exc, "Traceback").ok().expect("fields");
    assert_eq!(keys(&object.fields), ["excType", "message", "traceback"]);
    assert!(matches!(&object.fields[2].1, JsField::Text(t) if t == "Traceback"));
    assert_eq!(object.frames.len(), 2);
    assert_eq!((object.frames[0].len(), object.frames[1].len()), (9, 8));
    assert!(matches!(&object.frames[1][1], (key, JsField::Number(4)) if key == "line"));
}

#[test]
fn javascript_options_are_checked() {
    let sizes = |min_processes, max_processes| {
        check_pool_sizes(NativePoolSizes { min_processes, max_processes, max_checkouts_per_worker: None })
    };
    assert!(sizes(1, 1).is_ok());
    assert_eq!(sizes(0, 0).err().as_deref(), Some("maxProcesses must be at least 1"));
    assert_eq!(sizes(3, 2).err().as_deref(), Some("minProcesses cannot exceed maxProcesses"));
    let config = |annotations| {
        checkout_config(NativeCheckoutOptions {
            script_name: "a.py".to_owned(),
            limits: None,
            type_check: true,
            type_check_stubs: None,
            assert_message_annotations: annotations,
        })
        .assert_message_annotations
    };
    assert_eq!((config(None), config(Some(0)), config(Some(9))), (DEFAULT_ASSERT_BYTES, 0, 9));
    let mount = |mode: &str| {
        mount_spec(NativeMount {
            virtual_path: "/mnt".to_owned(),
            host_path: "/host".to_owned(),
            mode: mode.to_owned(),
            write_bytes_limit: Some(4),
        })
    };
    let spec = mount("read-write").ok().expect("a mount");
    assert_eq!((spec.mode, spec.write_bytes_limit), (MountSpecMode::ReadWrite, Some(4)));
    assert_eq!(spec.memory_usage_limit, DEFAULT_MEMORY_USAGE_LIMIT);
    assert_eq!(mount("rw").err().as_deref(), Some("invalid mount mode: 'rw'"));
}
