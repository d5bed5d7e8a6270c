//! The state machine of the CPython worker: requests in, events out.
//!
//! Host calls suspend and resume inside a feed, so the worker itself only ever
//! sees a feed start and end; dumping, loading and futures are not supported.
//! `N` is the namespace of an open session and `E` the environment that its
//! packages are installed into.

use crate::events::{fatal_event, violation};
use crate::exc::ExcType;
use crate::proto::{
    complete_event, debug_quoted, error_event, error_from_exception, first_refused, law_first_option_is_refused,
    monty_version, ok_event,
    requirement_message, validate_requirements, version_text, ChildEvent, EventKind, Feed, MontyObject, NamedValue,
    ParentRequest, RaisedException, Received, RequestKind,
};
use crate::text::{cat2, cat3, cat4, cat5, decimal, decimal_of, same, views};
use crate::worker::skew_message;
use vstd::prelude::*;

verus! {

/// Exit codes of the worker process.
pub const EXIT_SUCCESS: u8 = 0;

/// The request stream broke.
pub const EXIT_BROKEN_STREAM: u8 = 2;

/// An event could not be sent.
pub const EXIT_SEND_FAILED: u8 = 3;

/// Parent and worker have different versions.
pub const EXIT_VERSION_SKEW: u8 = 4;

/// The interpreter did not start.
pub const EXIT_START_FAILED: u8 = 5;

/// What arrived from the parent.
#[derive(Debug)]
pub enum Incoming {
    Request(ParentRequest),
    /// The parent closed the connection.
    Eof,
    /// A whole frame whose body does not decode.
    Malformed(String),
    /// The stream is out of step.
    Fatal(String),
}

/// Why an event could not be sent.
#[derive(Debug)]
pub enum SendError {
    TooLarge { len: u64, max: u64 },
    Io,
}

/// Session state.
#[derive(Debug)]
pub enum State<N, E> {
    /// No session.
    Idle,
    /// A session is open; its namespace persists across feeds. The install
    /// environment is created when packages are first installed.
    Ready { namespace: N, install: Option<E>, script_name: String },
}

/// All state of one connection.
#[derive(Debug)]
pub struct Session<N, E> {
    pub state: State<N, E>,
}

/// What packages are installed for.
#[derive(Debug)]
pub enum InstallFor {
    Request,
    Feed(Feed),
}

/// What follows once inputs are bound.
#[derive(Debug)]
pub enum AfterBind {
    /// Run the snippet; hand the outcome to `ran`.
    Run(String),
    /// The next input is bad: answer with this event.
    Reply(ChildEvent),
}

/// What comes next.
#[derive(Debug)]
pub enum Flow {
    /// Send this turn-ending event and keep serving; hand a failure to `send_failed`.
    Reply(ChildEvent),
    /// Send this event and keep serving; any failure to send ends the worker.
    ReplyOrQuit(ChildEvent),
    /// Send the final event, if any, then exit with this code.
    Exit { event: Option<ChildEvent>, code: u8 },
    /// Open an interpreter session; hand it to `opened`.
    Open { script_name: String },
    /// Find the dependencies that the snippet declares; hand them to `dependencies_found`.
    FindDependencies(Feed),
    /// Create the install environment; hand it to `install_env_created`.
    CreateInstallEnv { requirements: Vec<String>, purpose: InstallFor },
    /// Install these packages into the environment of the session; hand the
    /// result to `installed`.
    Install { requirements: Vec<String>, purpose: InstallFor },
    /// Bind these inputs in order, answering with the exception of the first
    /// that fails; then go on.
    Bind { bindings: Vec<(String, MontyObject)>, after: AfterBind },
}

/// What running a snippet came to.
#[derive(Debug)]
pub enum RunOutcome {
    /// The value of the snippet; `too_deep` when it nests too deeply to be sent.
    Value { value: MontyObject, too_deep: bool },
    /// The value has no counterpart on the wire, or the snippet raised.
    Raised(RaisedException),
}

impl Flow {
    /// The turn ends with a protocol violation.
    pub open spec fn is_violation(self, message: Seq<char>) -> bool {
        self is Reply && self->Reply_0.is_violation(message)
    }

    /// The turn ends with an exception.
    pub open spec fn is_error(self, exc_type: ExcType, message: Seq<char>) -> bool {
        self is Reply && self->Reply_0.is_error(exc_type, message)
    }

    /// The worker exits with a fatal event.
    pub open spec fn is_fatal(self, message: Seq<char>, code: u8) -> bool {
        &&& self is Exit
        &&& self->code == code
        &&& self->event is Some
        &&& self->event->Some_0.is_fatal(message)
    }

    /// The turn ends with an acknowledgement.
    pub open spec fn is_ok(self) -> bool {
        self == Flow::Reply(ChildEvent::plain(EventKind::Okay))
    }
}

/// How many inputs come before the first bad one.
pub open spec fn good_inputs(inputs: Seq<NamedValue>) -> nat
    decreases inputs.len(),
{
    if inputs.len() == 0 || !(inputs[0].value is Value) {
        0
    } else {
        1 + good_inputs(inputs.skip(1))
    }
}

/// What is said of a bad input.
pub open spec fn is_input_event(e: ChildEvent, input: NamedValue) -> bool {
    match input.value {
        Received::Missing => e.is_violation("input '"@ + input.name@ + "' has no value"@),
        Received::Invalid(err) => e.is_error(ExcType::RuntimeError, "invalid input value: "@ + err@),
        Received::Value(_) => false,
    }
}

/// The inputs before the first bad one are bound; then the snippet runs, or
/// the bad input is reported.
pub open spec fn binds(feed: Feed, flow: Flow) -> bool {
    let k = good_inputs(feed.inputs@) as int;
    &&& flow is Bind
    &&& flow->bindings@ == feed.inputs@.take(k).map_values(|i: NamedValue| (i.name, i.value->Value_0))
    &&& if k == feed.inputs@.len() {
        flow->after == AfterBind::Run(feed.code)
    } else {
        flow->after is Reply && is_input_event(flow->after->Reply_0, feed.inputs@[k])
    }
}

/// Whether the session has an install environment.
pub open spec fn has_install_env<N, E>(s: Session<N, E>) -> bool {
    s.state is Ready && s.state->install is Some
}

/// Packages go into the environment of the session, which comes first where
/// there is none yet.
pub open spec fn installs_allowed<N, E>(
    s: Session<N, E>,
    requirements: Vec<String>,
    purpose: InstallFor,
    flow: Flow,
) -> bool {
    if !(s.state is Ready) {
        flow.is_error(ExcType::RuntimeError, "no session"@)
    } else if s.state->install is None {
        flow == (Flow::CreateInstallEnv { requirements, purpose })
    } else {
        flow == (Flow::Install { requirements, purpose })
    }
}

/// What a list of requirements leads to.
pub open spec fn installs<N, E>(
    s: Session<N, E>,
    requirements: Vec<String>,
    purpose: InstallFor,
    flow: Flow,
) -> bool {
    match first_refused(views(requirements@)) {
        Some(refused) => flow.is_error(ExcType::ValueError, requirement_message(refused)),
        None => installs_allowed(s, requirements, purpose, flow),
    }
}

/// What a request leads to; the session itself changes only in `opened`.
pub open spec fn responds<N, E>(s: Session<N, E>, request: ParentRequest, flow: Flow) -> bool {
    match request.kind {
        None => flow.is_violation("request has no kind"@),
        Some(RequestKind::Configure(configure)) => if configure.monty_version@ != version_text() {
            flow.is_fatal(skew_message(configure.monty_version@), EXIT_VERSION_SKEW)
        } else if s.state is Ready {
            flow.is_violation("Configure while a session already exists"@)
        } else {
            flow == (Flow::Open { script_name: configure.script_name })
        },
        Some(RequestKind::Feed(feed)) => if s.state is Ready {
            flow == Flow::FindDependencies(feed)
        } else {
            flow.is_violation("Feed without a session"@)
        },
        Some(RequestKind::InstallDependencies(requirements)) => if !(s.state is Ready) {
            flow.is_violation("InstallDependencies without a session"@)
        } else if requirements@.len() == 0 {
            flow.is_ok()
        } else {
            installs(s, requirements, InstallFor::Request, flow)
        },
        Some(RequestKind::Reset) | Some(RequestKind::Shutdown) => {
            flow == (Flow::Exit { event: Some(ChildEvent::plain(EventKind::Okay)), code: EXIT_SUCCESS })
        },
        Some(RequestKind::ResumeCall { .. }) => flow.is_violation(
            "unexpected ResumeCall: no host call is suspended"@,
        ),
        Some(RequestKind::ResumeNameLookup(_)) => flow.is_violation(
            "unexpected ResumeNameLookup: no name lookup is suspended"@,
        ),
        Some(RequestKind::ResumeFutures(_)) => flow.is_violation(
            "ResumeFutures is not supported by the CPython worker"@,
        ),
        Some(RequestKind::Dump) => flow.is_violation("Dump is not supported by the CPython worker"@),
        Some(RequestKind::Load(_)) => flow.is_violation("Load is not supported by the CPython worker"@),
    }
}

/// Binds the inputs before the first bad one, then runs the snippet or reports
/// the bad input.
pub fn bind_inputs(feed: Feed) -> (flow: Flow)
    ensures
        binds(feed, flow),
        flow is Bind,
        flow->bindings@.len() <= feed.inputs@.len(),
        forall|i: int|
            0 <= i < flow->bindings@.len() ==> (#[trigger] flow->bindings@[i]).0 == feed.inputs@[i].name
                && feed.inputs@[i].value == Received::Value(flow->bindings@[i].1),
        flow->after is Run <==> flow->bindings@.len() == feed.inputs@.len(),
        flow->after is Run ==> flow->after == AfterBind::Run(feed.code),
        flow->bindings@.len() < feed.inputs@.len() ==> !(feed.inputs@[flow->bindings@.len() as int].value is Value),
{
    let ghost all = feed.inputs@;
    let mut bindings: Vec<(String, MontyObject)> = Vec::new();
    proof {
        assert(all.skip(0) =~= all);
        assert(bindings@ =~= all.take(0).map_values(|i: NamedValue| (i.name, i.value->Value_0)));
    }
    for input in it: feed.inputs
        invariant
            it.seq() == all,
            good_inputs(all) == it.index() + good_inputs(all.skip(it.index() as int)),
            bindings@ == all.take(it.index() as int).map_values(|i: NamedValue| (i.name, i.value->Value_0)),
            forall|j: int| 0 <= j < it.index() ==> (#[trigger] all[j]).value is Value,
    {
        let ghost k = it.index() as int;
        proof {
            assert(all.skip(k)[0] == all[k]);
            assert(all.skip(k).skip(1) =~= all.skip(k + 1));
            assert(all.take(k + 1).map_values(|i: NamedValue| (i.name, i.value->Value_0)) =~= all.take(k).map_values(
                |i: NamedValue| (i.name, i.value->Value_0),
            ).push((all[k].name, all[k].value->Value_0)));
        }
        match input.value {
            Received::Missing => {
                let message: String = cat3("input '", input.name.as_str(), "' has no value");
                return Flow::Bind { bindings, after: AfterBind::Reply(violation(message.as_str())) };
            },
            Received::Invalid(err) => {
                let message: String = cat2("invalid input value: ", err.as_str());
                return Flow::Bind {
                    bindings,
                    after: AfterBind::Reply(error_event(ExcType::RuntimeError, message.as_str())),
                };
            },
            Received::Value(value) => bindings.push((input.name, value)),
        }
    }
    proof {
        assert(all.skip(all.len() as int).len() == 0);
    }
    Flow::Bind { bindings, after: AfterBind::Run(feed.code) }
}

impl<N, E> Session<N, E> {
    /// A worker without a session.
    pub fn new() -> (r: Session<N, E>)
        ensures
            r.state is Idle,
    {
        Session { state: State::Idle }
    }

    /// Decides what follows from what arrived.
    pub fn run(&self, incoming: Incoming) -> (flow: Flow)
        ensures
            match incoming {
                Incoming::Request(request) => responds(*self, request, flow),
                Incoming::Eof => flow == (Flow::Exit { event: None, code: EXIT_SUCCESS }),
                Incoming::Malformed(msg) => flow is ReplyOrQuit && flow->ReplyOrQuit_0.is_violation(
                    "malformed request: "@ + msg@,
                ),
                Incoming::Fatal(msg) => flow.is_fatal("malformed request frame: "@ + msg@, EXIT_BROKEN_STREAM),
            },
    {
        match incoming {
            Incoming::Request(request) => self.handle(request),
            Incoming::Eof => Flow::Exit { event: None, code: EXIT_SUCCESS },
            Incoming::Malformed(msg) => Flow::ReplyOrQuit(
                violation(cat2("malformed request: ", msg.as_str()).as_str()),
            ),
            Incoming::Fatal(msg) => Flow::Exit {
                event: Some(fatal_event(cat2("malformed request frame: ", msg.as_str()).as_str())),
                code: EXIT_BROKEN_STREAM,
            },
        }
    }

    /// A turn-ending event could not be sent. One that is too large is replaced
    /// by an error; otherwise the parent is gone.
    pub fn send_failed(&self, err: SendError) -> (flow: Flow)
        ensures
            match err {
                SendError::TooLarge { len, max } => flow is ReplyOrQuit && flow->ReplyOrQuit_0.is_error(
                    ExcType::RuntimeError,
                    "result value of "@ + decimal(len as nat) + " bytes exceeds the maximum frame of "@ + decimal(
                        max as nat,
                    ) + " bytes"@,
                ),
                SendError::Io => flow == (Flow::Exit { event: None, code: EXIT_SEND_FAILED }),
            },
    {
        match err {
            SendError::TooLarge { len, max } => {
                let message: String = cat5(
                    "result value of ",
                    decimal_of(len).as_str(),
                    " bytes exceeds the maximum frame of ",
                    decimal_of(max).as_str(),
                    " bytes",
                );
                Flow::ReplyOrQuit(error_event(ExcType::RuntimeError, message.as_str()))
            },
            SendError::Io => Flow::Exit { event: None, code: EXIT_SEND_FAILED },
        }
    }

    /// Handles one request, producing one turn-ending event, an exit, or the
    /// next piece of work.
    pub fn handle(&self, request: ParentRequest) -> (flow: Flow)
        ensures
            responds(*self, request, flow),
    {
        let kind: RequestKind = match request.kind {
            None => return Flow::Reply(violation("request has no kind")),
            Some(kind) => kind,
        };
        match kind {
            RequestKind::Configure(configure) => {
                if !same(configure.monty_version.as_str(), monty_version().as_str()) {
                    let message: String = cat4(
                        "version skew: parent=",
                        debug_quoted(configure.monty_version.as_str()).as_str(),
                        " child=",
                        debug_quoted(monty_version().as_str()).as_str(),
                    );
                    return Flow::Exit { event: Some(fatal_event(message.as_str())), code: EXIT_VERSION_SKEW };
                }
                self.handle_configure(configure.script_name)
            },
            RequestKind::Feed(feed) => self.handle_feed(feed),
            RequestKind::InstallDependencies(requirements) => self.handle_install(requirements),
            RequestKind::Reset => Flow::Exit { event: Some(ok_event()), code: EXIT_SUCCESS },
            RequestKind::Shutdown => Flow::Exit { event: Some(ok_event()), code: EXIT_SUCCESS },
            RequestKind::ResumeCall { .. } => Flow::Reply(violation("unexpected ResumeCall: no host call is suspended")),
            RequestKind::ResumeNameLookup(_) => Flow::Reply(
                violation("unexpected ResumeNameLookup: no name lookup is suspended"),
            ),
            RequestKind::ResumeFutures(_) => Flow::Reply(
                violation("ResumeFutures is not supported by the CPython worker"),
            ),
            RequestKind::Dump => Flow::Reply(violation("Dump is not supported by the CPython worker")),
            RequestKind::Load(_) => Flow::Reply(violation("Load is not supported by the CPython worker")),
        }
    }

    /// Sets out to open a session; there must be none yet.
    fn handle_configure(&self, script_name: String) -> (flow: Flow)
        ensures
            self.state is Ready ==> flow.is_violation("Configure while a session already exists"@),
            self.state is Idle ==> flow == (Flow::Open { script_name }),
    {
        match &self.state {
            State::Ready { .. } => Flow::Reply(violation("Configure while a session already exists")),
            State::Idle => Flow::Open { script_name },
        }
    }

    /// Takes in the session that was asked for. One that fails to open ends
    /// the worker.
    pub fn opened(&mut self, script_name: String, result: Result<N, String>) -> (flow: Flow)
        ensures
            match result {
                Ok(namespace) => final(self).state == (State::Ready { namespace, install: None::<E>, script_name }) && flow.is_ok(),
                Err(err) => *final(self) == *old(self) && flow.is_fatal(
                    "failed to start CPython session: "@ + err@,
                    EXIT_START_FAILED,
                ),
            },
    {
        match result {
            Ok(namespace) => {
                self.state = State::Ready { namespace, install: None, script_name };
                Flow::Reply(ok_event())
            },
            Err(err) => Flow::Exit {
                event: Some(fatal_event(cat2("failed to start CPython session: ", err.as_str()).as_str())),
                code: EXIT_START_FAILED,
            },
        }
    }

    /// Sets out to install packages into the session.
    fn handle_install(&self, requirements: Vec<String>) -> (flow: Flow)
        ensures
            !(self.state is Ready) ==> flow.is_violation("InstallDependencies without a session"@),
            self.state is Ready && requirements@.len() == 0 ==> flow.is_ok(),
            self.state is Ready && requirements@.len() > 0 ==> installs(*self, requirements, InstallFor::Request, flow),
    {
        match &self.state {
            State::Idle => return Flow::Reply(violation("InstallDependencies without a session")),
            State::Ready { .. } => {},
        }
        if requirements.len() == 0 {
            return Flow::Reply(ok_event());
        }
        self.install(requirements, InstallFor::Request)
    }

    /// Checks the requirements, then sets out to install them.
    fn install(&self, requirements: Vec<String>, purpose: InstallFor) -> (flow: Flow)
        ensures
            installs(*self, requirements, purpose, flow),
    {
        match validate_requirements(&requirements) {
            Err(message) => Flow::Reply(error_event(ExcType::ValueError, message.as_str())),
            Ok(()) => self.install_requirements(requirements, purpose),
        }
    }

    /// Sets out to install allowed requirements; the install environment is
    /// created on first use.
    fn install_requirements(&self, requirements: Vec<String>, purpose: InstallFor) -> (flow: Flow)
        ensures
            installs_allowed(*self, requirements, purpose, flow),
    {
        match &self.state {
            State::Idle => Flow::Reply(error_event(ExcType::RuntimeError, "no session")),
            State::Ready { install: None, .. } => Flow::CreateInstallEnv { requirements, purpose },
            State::Ready { install: Some(_), .. } => Flow::Install { requirements, purpose },
        }
    }

    /// Takes in the install environment that was asked for. Where it cannot be
    /// created the session stays without one, so that a later installation
    /// tries again.
    pub fn install_env_created(
        &mut self,
        requirements: Vec<String>,
        purpose: InstallFor,
        result: Result<E, String>,
    ) -> (flow: Flow)
        requires
            old(self).state is Ready,
            old(self).state->install is None,
        ensures
            match result {
                Ok(env) => {
                    &&& final(self).state is Ready
                    &&& final(self).state->namespace == old(self).state->namespace
                    &&& final(self).state->install == Some(env)
                    &&& final(self).state->script_name == old(self).state->script_name
                    &&& flow == (Flow::Install { requirements, purpose })
                },
                Err(err) => *final(self) == *old(self) && flow.is_error(
                    ExcType::RuntimeError,
                    "failed to create install directory: "@ + err@,
                ),
            },
    {
        match result {
            Ok(env) => {
                let mut taken: State<N, E> = State::Idle;
                core::mem::swap(&mut self.state, &mut taken);
                self.state = match taken {
                    State::Idle => State::Idle,
                    State::Ready { namespace, script_name, .. } => State::Ready {
                        namespace,
                        install: Some(env),
                        script_name,
                    },
                };
                Flow::Install { requirements, purpose }
            },
            Err(err) => Flow::Reply(
                error_event(
                    ExcType::RuntimeError,
                    cat2("failed to create install directory: ", err.as_str()).as_str(),
                ),
            ),
        }
    }

    /// Takes in the result of an installation.
    pub fn installed(&self, purpose: InstallFor, result: Result<(), String>) -> (flow: Flow)
        ensures
            match result {
                Err(message) => flow.is_error(ExcType::RuntimeError, message@),
                Ok(()) => match purpose {
                    InstallFor::Request => flow.is_ok(),
                    InstallFor::Feed(feed) => binds(feed, flow),
                },
            },
    {
        match result {
            Err(message) => Flow::Reply(error_event(ExcType::RuntimeError, message.as_str())),
            Ok(()) => match purpose {
                InstallFor::Request => Flow::Reply(ok_event()),
                InstallFor::Feed(feed) => bind_inputs(feed),
            },
        }
    }

    /// Sets out to run one snippet.
    fn handle_feed(&self, feed: Feed) -> (flow: Flow)
        ensures
            self.state is Ready ==> flow == Flow::FindDependencies(feed),
            !(self.state is Ready) ==> flow.is_violation("Feed without a session"@),
    {
        match &self.state {
            State::Idle => Flow::Reply(violation("Feed without a session")),
            State::Ready { .. } => Flow::FindDependencies(feed),
        }
    }

    /// Takes in the dependencies that a snippet declares inline. They are
    /// checked and installed like requested ones before the snippet runs.
    pub fn dependencies_found(&self, feed: Feed, dependencies: Result<Vec<String>, String>) -> (flow: Flow)
        ensures
            match dependencies {
                Err(message) => flow.is_error(ExcType::ValueError, message@),
                Ok(requirements) => if requirements@.len() == 0 {
                    binds(feed, flow)
                } else {
                    installs(*self, requirements, InstallFor::Feed(feed), flow)
                },
            },
    {
        match dependencies {
            Err(message) => Flow::Reply(error_event(ExcType::ValueError, message.as_str())),
            Ok(requirements) => {
                if requirements.len() == 0 {
                    bind_inputs(feed)
                } else {
                    self.install(requirements, InstallFor::Feed(feed))
                }
            },
        }
    }

    /// Takes in what running a snippet came to.
    pub fn ran(&self, outcome: RunOutcome) -> (flow: Flow)
        ensures
            match outcome {
                RunOutcome::Value { value, too_deep } => if too_deep {
                    flow.is_error(
                        ExcType::RuntimeError,
                        "result value is too deeply nested to send over the wire"@,
                    )
                } else {
                    flow == Flow::Reply(ChildEvent::plain(EventKind::Complete(value)))
                },
                RunOutcome::Raised(exc) => flow == Flow::Reply(ChildEvent::plain(EventKind::Error(exc))),
            },
    {
        match outcome {
            RunOutcome::Value { value, too_deep } => {
                if too_deep {
                    Flow::Reply(
                        error_event(
                            ExcType::RuntimeError,
                            "result value is too deeply nested to send over the wire",
                        ),
                    )
                } else {
                    Flow::Reply(complete_event(value))
                }
            },
            RunOutcome::Raised(exc) => Flow::Reply(error_from_exception(exc)),
        }
    }
}

/// No requirement that looks like an installer option ever reaches the
/// installer, whether it was requested or declared inline.
pub proof fn law_options_never_reach_the_installer<N, E>(
    s: Session<N, E>,
    requirements: Vec<String>,
    purpose: InstallFor,
    flow: Flow,
)
    requires
        installs(s, requirements, purpose, flow),
        flow is Install || flow is CreateInstallEnv,
    ensures
        flow is Install ==> flow->Install_requirements == requirements,
        flow is CreateInstallEnv ==> flow->CreateInstallEnv_requirements == requirements,
        forall|i: int|
            0 <= i < requirements@.len() ==> crate::proto::requirement_allowed((#[trigger] requirements@[i])@),
{
    lemma_none_refused(views(requirements@));
    assert forall|i: int| 0 <= i < requirements@.len() implies crate::proto::requirement_allowed(
        (#[trigger] requirements@[i])@,
    ) by {
        assert(views(requirements@)[i] == requirements@[i]@);
    }
}

/// A session creates its install environment once: where there is one, no
/// request leads to another.
pub proof fn law_one_install_env_per_session<N, E>(s: Session<N, E>, request: ParentRequest, flow: Flow)
    requires
        has_install_env(s),
        responds(s, request, flow),
    ensures
        !(flow is CreateInstallEnv),
        !(flow is Open),
{
}

/// Where every input carries a value, as many names are bound as there are
/// inputs, in the same order, each to the very value that its input carries;
/// then the snippet runs.
pub proof fn law_sound_inputs_are_all_bound(feed: Feed, flow: Flow)
    requires
        binds(feed, flow),
        forall|i: int| 0 <= i < feed.inputs@.len() ==> (#[trigger] feed.inputs@[i]).value is Value,
    ensures
        flow is Bind,
        flow->bindings@.len() == feed.inputs@.len(),
        forall|i: int|
            0 <= i < feed.inputs@.len() ==> (#[trigger] flow->bindings@[i]).0 == feed.inputs@[i].name
                && feed.inputs@[i].value == Received::Value(flow->bindings@[i].1),
        flow->after == AfterBind::Run(feed.code),
{
    let inputs = feed.inputs@;
    lemma_good_inputs(inputs, inputs.len() as int);
    assert forall|i: int| 0 <= i < inputs.len() implies (#[trigger] flow->bindings@[i]).0 == inputs[i].name
        && inputs[i].value == Received::Value(flow->bindings@[i].1) by {
        assert(inputs.take(inputs.len() as int)[i] == inputs[i]);
    }
}

/// The first input without a usable value ends the binding: those before it
/// are bound, each to its own value, and the snippet does not run.
pub proof fn law_first_bad_input_ends_the_binding(feed: Feed, flow: Flow, bad: int)
    requires
        binds(feed, flow),
        0 <= bad < feed.inputs@.len(),
        !(feed.inputs@[bad].value is Value),
        forall|i: int| 0 <= i < bad ==> (#[trigger] feed.inputs@[i]).value is Value,
    ensures
        flow is Bind,
        flow->bindings@.len() == bad,
        forall|i: int|
            0 <= i < bad ==> (#[trigger] flow->bindings@[i]).0 == feed.inputs@[i].name && feed.inputs@[i].value
                == Received::Value(flow->bindings@[i].1),
        flow->after is Reply,
        feed.inputs@[bad].value is Missing ==> flow->after->Reply_0.is_violation(
            "input '"@ + feed.inputs@[bad].name@ + "' has no value"@,
        ),
        feed.inputs@[bad].value is Invalid ==> flow->after->Reply_0.is_error(
            ExcType::RuntimeError,
            "invalid input value: "@ + feed.inputs@[bad].value->Invalid_0@,
        ),
{
    let inputs = feed.inputs@;
    lemma_good_inputs(inputs, bad);
    assert forall|i: int| 0 <= i < bad implies (#[trigger] flow->bindings@[i]).0 == inputs[i].name && inputs[i].value
        == Received::Value(flow->bindings@[i].1) by {
        assert(inputs.take(bad)[i] == inputs[i]);
    }
}

proof fn lemma_good_inputs(inputs: Seq<NamedValue>, k: int)
    requires
        0 <= k <= inputs.len(),
        forall|i: int| 0 <= i < k ==> (#[trigger] inputs[i]).value is Value,
        k < inputs.len() ==> !(inputs[k].value is Value),
    ensures
        good_inputs(inputs) == k,
    decreases inputs.len(),
{
    if k > 0 {
        let rest = inputs.skip(1);
        assert forall|i: int| 0 <= i < k - 1 implies (#[trigger] rest[i]).value is Value by {
            assert(rest[i] == inputs[i + 1]);
        }
        if k < inputs.len() {
            assert(rest[k - 1] == inputs[k]);
        }
        assert(inputs[0].value is Value);
        lemma_good_inputs(rest, k - 1);
    }
}

/// A request changes course only with what it carries: a session is opened
/// under the script name asked for, by a parent of the same version, while
/// there is none; a snippet goes on as it came, and only in a session; and
/// nothing but a reset, a shutdown or another version ends the worker.
pub proof fn law_requests_go_on_as_they_came<N, E>(s: Session<N, E>, request: ParentRequest, flow: Flow)
    requires
        responds(s, request, flow),
    ensures
        flow is Open <==> s.state is Idle && request.kind is Some && request.kind->Some_0 is Configure
            && request.kind->Some_0->Configure_0.monty_version@ == version_text(),
        flow is Open ==> flow->Open_script_name == request.kind->Some_0->Configure_0.script_name,
        flow is FindDependencies <==> s.state is Ready && request.kind is Some && request.kind->Some_0 is Feed,
        flow is FindDependencies ==> request.kind->Some_0->Feed_0 == flow->FindDependencies_0,
        flow is Exit <==> request.kind is Some && match request.kind->Some_0 {
            RequestKind::Reset | RequestKind::Shutdown => true,
            RequestKind::Configure(configure) => configure.monty_version@ != version_text(),
            _ => false,
        },
        flow is Exit ==> flow->code == if request.kind->Some_0 is Configure { 4u8 } else { 0u8 },
        flow is Install || flow is CreateInstallEnv ==> s.state is Ready && request.kind is Some
            && request.kind->Some_0 is InstallDependencies,
        flow is Install ==> s.state->install is Some && flow->Install_requirements
            == request.kind->Some_0->InstallDependencies_0 && flow->Install_purpose is Request,
        flow is CreateInstallEnv ==> s.state->install is None && flow->CreateInstallEnv_requirements
            == request.kind->Some_0->InstallDependencies_0 && flow->CreateInstallEnv_purpose is Request,
        !(flow is Bind),
        !(flow is ReplyOrQuit),
{
}

/// Packages of which none looks like an option are installed as they were
/// asked for, into the environment of the session, or into one that is made
/// first; the first that does is reported instead.
pub proof fn law_allowed_packages_are_installed<N, E>(
    s: Session<N, E>,
    requirements: Vec<String>,
    purpose: InstallFor,
    flow: Flow,
)
    requires
        s.state is Ready,
        installs(s, requirements, purpose, flow),
    ensures
        (forall|i: int|
            0 <= i < requirements@.len() && (#[trigger] requirements@[i])@.len() > 0 ==> requirements@[i]@[0] != '-')
            ==> if s.state->install is Some {
            flow == (Flow::Install { requirements, purpose })
        } else {
            flow == (Flow::CreateInstallEnv { requirements, purpose })
        },
        (exists|i: int|
            0 <= i < requirements@.len() && (#[trigger] requirements@[i])@.len() > 0 && requirements@[i]@[0] == '-')
            ==> flow is Reply && flow->Reply_0.kind is Some && flow->Reply_0.kind->Some_0 is Error
            && flow->Reply_0.kind->Some_0->Error_0.exc_type@ == "ValueError"@,
{
    let texts = views(requirements@);
    law_first_option_is_refused(texts);
    assert forall|i: int| 0 <= i < requirements@.len() implies #[trigger] texts[i] == requirements@[i]@ by {}
    if exists|i: int|
        0 <= i < requirements@.len() && (#[trigger] requirements@[i])@.len() > 0 && requirements@[i]@[0] == '-' {
        let i = choose|i: int|
            0 <= i < requirements@.len() && (#[trigger] requirements@[i])@.len() > 0 && requirements@[i]@[0] == '-';
        assert(texts[i].len() > 0 && texts[i][0] == '-');
    }
    if forall|i: int|
        0 <= i < requirements@.len() && (#[trigger] requirements@[i])@.len() > 0 ==> requirements@[i]@[0] != '-' {
        assert forall|i: int| 0 <= i < texts.len() && (#[trigger] texts[i]).len() > 0 implies texts[i][0] != '-' by {
            assert(requirements@[i]@ == texts[i]);
        }
    }
}

proof fn lemma_none_refused(requirements: Seq<Seq<char>>)
    requires
        first_refused(requirements) is None,
    ensures
        forall|i: int| 0 <= i < requirements.len() ==> crate::proto::requirement_allowed(#[trigger] requirements[i]),
    decreases requirements.len(),
{
    if requirements.len() > 0 {
        lemma_none_refused(requirements.skip(1));
        assert forall|i: int| 0 <= i < requirements.len() implies crate::proto::requirement_allowed(
            #[trigger] requirements[i],
        ) by {
            if i > 0 {
                assert(requirements.skip(1)[i - 1] == requirements[i]);
            }
        }
    }
}

/// A turn that ends with a violation, an error or an acknowledgement ends with
/// one event that says so; a fatal one is the last of the worker.
pub proof fn law_answers_say_how_the_turn_ended(flow: Flow, exc_type: ExcType, message: Seq<char>, code: u8)
    ensures
        flow.is_violation(message) ==> flow is Reply && flow->Reply_0.is_violation(message),
        flow.is_error(exc_type, message) ==> flow is Reply && flow->Reply_0.is_error(exc_type, message),
        flow.is_fatal(message, code) ==> flow is Exit && flow->code == code && flow->event is Some
            && flow->event->Some_0.is_fatal(message),
        flow.is_ok() ==> flow is Reply && flow->Reply_0.kind == Some(EventKind::Okay),
{
}

} // verus!
