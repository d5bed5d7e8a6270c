use monty_host::events::{fatal_event, function_call_event, name_lookup_event, print_event, violation};
use monty_host::proto::{
    monty_version, ChildEvent, Configure, EventKind, Feed, MontyObject, NamedValue, ParentRequest, PrintStream,
    RaisedException, Received, RequestKind, Traceback,
};
use monty_host::session::{
    AfterBind, Flow, Incoming, InstallFor, RunOutcome, SendError, Session, State,
};
use monty_host::traceback::{extract, py_traceback_frames, FrameRow};

/// What a scripted session is told by the world around it.
#[derive(Default)]
struct World {
    dependencies: Option<Result<Vec<String>, String>>,
    outcome: Option<RunOutcome>,
    installed: Vec<Vec<String>>,
    install_result: Option<String>,
    env_result: Option<String>,
    envs: usize,
    bound: Vec<String>,
    ran: Vec<String>,
}

/// Serves requests until the session exits; returns its events and exit code.
fn drive(script: Vec<RequestKind>, world: &mut World) -> (Vec<ChildEvent>, u8) {
    let mut session: Session<&'static str, usize> = Session::new();
    let mut events = Vec::new();
    let mut script = script.into_iter();
    loop {
        let incoming = match script.next() {
            Some(kind) => Incoming::Request(ParentRequest { kind: Some(kind) }),
            None => Incoming::Eof,
        };
        let mut flow = session.run(incoming);
        loop {
            flow = match flow {
                Flow::Reply(event) | Flow::ReplyOrQuit(event) => {
                    events.push(event);
                    break;
                }
                Flow::Exit { event, code } => {
                    events.extend(event);
                    return (events, code);
                }
                Flow::Open { script_name } => session.opened(script_name, Ok("namespace")),
                Flow::FindDependencies(feed) => {
                    let found = world.dependencies.take().unwrap_or(Ok(vec![]));
                    session.dependencies_found(feed, found)
                }
                Flow::CreateInstallEnv { requirements, purpose } => {
                    world.envs += 1;
                    let result = world.env_result.take().map_or(Ok(world.envs), Err);
                    session.install_env_created(requirements, purpose, result)
                }
                Flow::Install { requirements, purpose } => {
                    world.installed.push(requirements);
                    let result = world.install_result.take().map_or(Ok(()), Err);
                    session.installed(purpose, result)
                }
                Flow::Bind { bindings, after } => {
                    world.bound.extend(bindings.into_iter().map(|(name, _)| name));
                    match after {
                        AfterBind::Reply(event) => Flow::Reply(event),
                        AfterBind::Run(code) => {
                            world.ran.push(code);
                            let outcome = world.outcome.take().unwrap_or(RunOutcome::Value {
                                value: MontyObject::NoneValue,
                                too_deep: false,
                            });
                            session.ran(outcome)
                        }
                    }
                }
            };
        }
    }
}

fn configure() -> RequestKind {
    RequestKind::Configure(Configure {
        script_name: "main.py".to_owned(),
        limits: None,
        type_check: false,
        type_check_stubs: None,
        assert_message_annotations: None,
        monty_version: monty_version(),
    })
}

fn install(requirements: &[&str]) -> RequestKind {
    RequestKind::InstallDependencies(requirements.iter().map(|r| (*r).to_owned()).collect())
}

fn feed(code: &str) -> RequestKind {
    RequestKind::Feed(Feed { code: code.to_owned(), inputs: vec![], skip_type_check: false })
}

fn error(events: &[ChildEvent]) -> &RaisedException {
    events
        .iter()
        .find_map(|e| match e.kind.as_ref() {
            Some(EventKind::Error(err)) => Some(err),
            _ => None,
        })
        .expect("an Error event")
}

#[test]
fn install_without_session_is_rejected() {
    let (events, _) = drive(vec![install(&["anything"])], &mut World::default());
    let error = error(&events);
    assert_eq!(error.exc_type, "RuntimeError");
    assert_eq!(
        error.message.as_deref(),
        Some("protocol violation: InstallDependencies without a session")
    );
}

#[test]
fn empty_install_is_a_noop() {
    let mut world = World::default();
    let (events, code) = drive(vec![configure(), install(&[]), RequestKind::Shutdown], &mut world);
    let oks = events.iter().filter(|e| matches!(e.kind, Some(EventKind::Okay))).count();
    assert_eq!(oks, 3, "Configure + empty install + Shutdown all ack with Ok");
    assert!(world.installed.is_empty());
    assert_eq!(code, 0);
}

#[test]
fn install_rejects_flag_like_requirement() {
    let mut world = World::default();
    let (events, _) = drive(vec![configure(), install(&["-r /etc/hosts"]), RequestKind::Shutdown], &mut world);
    let error = error(&events);
    assert_eq!(error.exc_type, "ValueError");
    assert_eq!(
        error.message.as_deref(),
        Some("invalid requirement \"-r /etc/hosts\": must not start with '-' (it would be parsed as a uv option)")
    );
    assert!(world.installed.is_empty());
}

#[test]
fn ordinary_comments_do_not_trigger_pep723() {
    let mut world = World {
        outcome: Some(RunOutcome::Value { value: MontyObject::Int(42), too_deep: false }),
        ..World::default()
    };
    let code = "# just a comment\nx = 41\nx + 1";
    let (events, _) = drive(vec![configure(), feed(code), RequestKind::Shutdown], &mut world);
    let complete = events
        .iter()
        .find_map(|e| match e.kind.as_ref() {
            Some(EventKind::Complete(value)) => Some(value),
            _ => None,
        })
        .expect("a Complete event");
    assert_eq!(*complete, MontyObject::Int(42));
    assert!(world.installed.is_empty());
    assert_eq!(world.ran, vec![code.to_owned()]);
}

#[test]
fn pep723_multiple_blocks_is_an_error() {
    let code = "# /// script\n# dependencies = [\"a\"]\n# ///\n\n# /// script\n# dependencies = [\"b\"]\n# ///\n";
    let mut world = World {
        dependencies: Some(Err("multiple PEP 723 script blocks found".to_owned())),
        ..World::default()
    };
    let (events, _) = drive(vec![configure(), feed(code), RequestKind::Shutdown], &mut world);
    let error = error(&events);
    assert_eq!(error.exc_type, "ValueError");
    assert_eq!(error.message.as_deref(), Some("multiple PEP 723 script blocks found"));
    assert!(world.ran.is_empty());
}

#[test]
fn pep723_rejects_flag_like_requirement() {
    let code = "# /// script\n# dependencies = [\"--index-url=http://evil\"]\n# ///\nprint('never runs')";
    let mut world = World {
        dependencies: Some(Ok(vec!["--index-url=http://evil".to_owned()])),
        ..World::default()
    };
    let (events, _) = drive(vec![configure(), feed(code), RequestKind::Shutdown], &mut world);
    let error = error(&events);
    assert_eq!(error.exc_type, "ValueError");
    assert_eq!(
        error.message.as_deref(),
        Some(
            "invalid requirement \"--index-url=http://evil\": must not start with '-' (it would be parsed as a uv option)"
        )
    );
    assert!(world.ran.is_empty() && world.installed.is_empty());
}

#[test]
fn error_survives_sandbox_patching_traceback_module() {
    let mut world = World {
        outcome: Some(RunOutcome::Raised(RaisedException {
            exc_type: "ValueError".to_owned(),
            message: Some("real".to_owned()),
            traceback: py_traceback_frames(None),
            data: None,
        })),
        ..World::default()
    };
    let code = "import traceback\n\
                 _oe, _os = traceback.extract_tb, traceback.StackSummary\n\
                 traceback.extract_tb = None\n\
                 traceback.StackSummary = None\n\
                 raise ValueError('real')";
    let restore = "import traceback\ntraceback.extract_tb, traceback.StackSummary = _oe, _os";
    let (events, _) = drive(vec![configure(), feed(code), feed(restore), RequestKind::Shutdown], &mut world);
    let error = error(&events);
    assert_eq!(error.exc_type, "ValueError");
    assert_eq!(error.message.as_deref(), Some("real"));
    assert!(error.traceback.frames.is_empty());
}

#[test]
fn print_events_keep_their_stream_and_text() {
    let events = [
        print_event(PrintStream::Stdout, "out".to_owned()),
        print_event(PrintStream::Stdout, "\n".to_owned()),
        print_event(PrintStream::Stderr, "err".to_owned()),
        print_event(PrintStream::Stderr, "\n".to_owned()),
    ];
    let prints: Vec<(PrintStream, String)> = events
        .into_iter()
        .filter_map(|e| match e.kind {
            Some(EventKind::Print { stream, text }) => Some((stream, text)),
            _ => None,
        })
        .collect();
    assert_eq!(
        prints,
        vec![
            (PrintStream::Stdout, "out".to_owned()),
            (PrintStream::Stdout, "\n".to_owned()),
            (PrintStream::Stderr, "err".to_owned()),
            (PrintStream::Stderr, "\n".to_owned()),
        ]
    );
}

#[test]
fn declared_dependencies_are_installed_before_the_snippet_runs() {
    let mut world = World { dependencies: Some(Ok(vec!["six==1.16.0".to_owned()])), ..World::default() };
    drive(vec![configure(), feed("import six")], &mut world);
    assert_eq!(world.installed, vec![vec!["six==1.16.0".to_owned()]]);
    assert_eq!(world.ran, vec!["import six".to_owned()]);
    let mut world = World {
        dependencies: Some(Ok(vec!["six".to_owned()])),
        env_result: Some("no disk".to_owned()),
        ..World::default()
    };
    let (events, code) = drive(vec![configure(), feed("import six")], &mut world);
    assert_eq!(error(&events).exc_type, "RuntimeError");
    assert_eq!(error(&events).message.as_deref(), Some("failed to create install directory: no disk"));
    assert!(world.ran.is_empty() && world.installed.is_empty());
    assert_eq!(code, 0);
    // a failed installation is reported in the installer's own words
    let mut world = World { install_result: Some("no such package".to_owned()), ..World::default() };
    let (events, _) = drive(vec![configure(), install(&["nope"])], &mut world);
    assert_eq!(error(&events).exc_type, "RuntimeError");
    assert_eq!(error(&events).message.as_deref(), Some("no such package"));
}

#[test]
fn a_session_creates_one_install_environment() {
    let mut world = World { env_result: Some("no disk".to_owned()), ..World::default() };
    let script = vec![configure(), install(&["six"]), install(&["six"]), install(&["attrs"])];
    let (events, _) = drive(script, &mut world);
    assert!(matches!(events[1].kind, Some(EventKind::Error(_))));
    assert!(matches!(events[2].kind, Some(EventKind::Okay)));
    assert!(matches!(events[3].kind, Some(EventKind::Okay)));
    // the failed attempt is repeated, the one that worked is not
    assert_eq!(world.envs, 2);
    assert_eq!(world.installed, vec![vec!["six".to_owned()], vec!["attrs".to_owned()]]);
}

#[test]
fn bad_inputs_stop_binding() {
    let inputs = vec![
        NamedValue { name: "a".to_owned(), value: Received::Value(MontyObject::Int(1)) },
        NamedValue { name: "b".to_owned(), value: Received::Missing },
        NamedValue { name: "c".to_owned(), value: Received::Value(MontyObject::Int(2)) },
    ];
    let mut world = World::default();
    let snippet = RequestKind::Feed(Feed { code: "a".to_owned(), inputs, skip_type_check: false });
    let (events, _) = drive(vec![configure(), snippet], &mut world);
    assert_eq!(world.bound, vec!["a".to_owned()]);
    assert_eq!(error(&events).message.as_deref(), Some("protocol violation: input 'b' has no value"));
    let inputs = vec![NamedValue { name: "a".to_owned(), value: Received::Invalid("depth".to_owned()) }];
    let snippet = RequestKind::Feed(Feed { code: "a".to_owned(), inputs, skip_type_check: false });
    let (events, _) = drive(vec![configure(), snippet], &mut World::default());
    assert_eq!(error(&events).message.as_deref(), Some("invalid input value: depth"));
}

#[test]
fn unsupported_requests_leave_the_session_alone() {
    for (kind, expected) in [
        (RequestKind::Dump, "Dump is not supported by the CPython worker"),
        (RequestKind::Load(vec![]), "Load is not supported by the CPython worker"),
        (RequestKind::ResumeFutures(Ok(vec![])), "ResumeFutures is not supported by the CPython worker"),
        (
            RequestKind::ResumeCall { call_id: 0, result: Received::Missing },
            "unexpected ResumeCall: no host call is suspended",
        ),
        (
            RequestKind::ResumeNameLookup(Err(String::new())),
            "unexpected ResumeNameLookup: no name lookup is suspended",
        ),
        (configure(), "Configure while a session already exists"),
    ] {
        let (events, _) = drive(vec![configure(), kind], &mut World::default());
        assert_eq!(error(&events).message, Some(format!("protocol violation: {expected}")));
    }
    let (events, _) = drive(vec![feed("1")], &mut World::default());
    assert_eq!(error(&events).message.as_deref(), Some("protocol violation: Feed without a session"));
}

#[test]
fn the_worker_exits_with_its_codes() {
    let skewed = RequestKind::Configure(Configure {
        script_name: String::new(),
        limits: None,
        type_check: false,
        type_check_stubs: None,
        assert_message_annotations: None,
        monty_version: String::new(),
    });
    let (events, code) = drive(vec![skewed], &mut World::default());
    assert_eq!(code, 4);
    assert!(matches!(events[0].kind.as_ref(), Some(EventKind::FatalError(m)) if m.contains("version skew")));
    let mut session: Session<u8, u8> = Session::new();
    assert!(matches!(session.run(Incoming::Eof), Flow::Exit { event: None, code: 0 }));
    assert!(matches!(session.run(Incoming::Fatal("x".to_owned())), Flow::Exit { event: Some(_), code: 2 }));
    assert!(matches!(session.run(Incoming::Malformed("x".to_owned())), Flow::ReplyOrQuit(_)));
    assert!(matches!(session.send_failed(SendError::Io), Flow::Exit { event: None, code: 3 }));
    match session.send_failed(SendError::TooLarge { len: 10, max: 9 }) {
        Flow::ReplyOrQuit(event) => assert_eq!(
            error(&[event]).message.as_deref(),
            Some("result value of 10 bytes exceeds the maximum frame of 9 bytes")
        ),
        other => panic!("{other:?}"),
    }
    assert!(matches!(
        session.opened("main.py".to_owned(), Err("no".to_owned())),
        Flow::Exit { code: 5, .. }
    ));
    assert!(matches!(session.state, State::Idle));
    assert!(matches!(session.run(Incoming::Request(ParentRequest { kind: None })), Flow::Reply(_)));
    match session.ran(RunOutcome::Value { value: MontyObject::NoneValue, too_deep: true }) {
        Flow::Reply(event) => assert_eq!(
            error(&[event]).message.as_deref(),
            Some("result value is too deeply nested to send over the wire")
        ),
        other => panic!("{other:?}"),
    }
    assert!(matches!(session.installed(InstallFor::Request, Ok(())), Flow::Reply(_)));
}

#[test]
fn events_carry_what_they_are_built_from() {
    assert!(matches!(fatal_event("x").kind, Some(EventKind::FatalError(m)) if m == "x"));
    assert!(matches!(violation("x").kind, Some(EventKind::Error(e))
        if e.message.as_deref() == Some("protocol violation: x")));
    assert!(matches!(name_lookup_event("n".to_owned()).kind, Some(EventKind::NameLookup(n)) if n == "n"));
    assert!(matches!(function_call_event("f".to_owned(), vec![], vec![], 3).kind,
        Some(EventKind::FunctionCall(c)) if c.call_id == 3 && !c.method_call));
}

fn row(line: u32, preview: Option<&str>) -> FrameRow {
    FrameRow {
        filename: "main.py".to_owned(),
        start_line: line,
        start_col: 1,
        end_line: line,
        end_col: 4,
        frame_name: Some("f".to_owned()),
        preview_line: preview.map(|p| p.to_owned()),
        hide_caret: true,
        hide_frame_name: false,
    }
}

#[test]
fn frames_on_one_line_share_their_preview() {
    let traceback = extract(vec![row(4, Some("f()")), row(2, Some("raise")), row(4, Some("f()")), row(9, None)]);
    assert_eq!(traceback.previews, vec!["f()".to_owned(), "raise".to_owned()]);
    let shared: Vec<Option<usize>> = traceback.frames.iter().map(|f| f.preview_line).collect();
    assert_eq!(shared, vec![Some(0), Some(1), Some(0), None]);
    assert_eq!(traceback.frames[1].start.line, 2);
    assert!(traceback.frames[1].hide_caret);
    assert!(Traceback::empty().frames.is_empty());
}
