//! The protocol child: one request in, streamed prints, one turn-ending event.
//!
//! The child holds the state of a session and decides what each request leads
//! to. Running sandboxed code is the interpreter's work: where a request needs
//! it, the child answers with a step that says what to run, and the result is
//! handed back to the method that the step names. `R` is an idle interpreter
//! session and `S` a suspended one; the child carries both without looking
//! inside.

use crate::common::capped;
use crate::dump::{
    build_dump, dump_bytes, law_dump_round_trip, parse_dump, parse_dump_spec, type_check_view, MetaView, SessionMeta, TypeCheckState,
    TypeCheckView, TAG_IDLE, TAG_SUSPENDED,
};
use crate::exc::ExcType;
use crate::frame::{as_u32, capped_u32, error_text, first_frame, read_frame, FrameError, MAX_FRAME_LEN};
use crate::proto::{
    complete_event, debug_quoted, debug_text, error_event, error_from_exception, event, fatal_error_event,
    monty_version, ok_event, protocol_violation, version_text, ChildEvent, Configure, EventKind, ExtFunctionResult,
    Feed, FunctionCall, MontyObject, NameLookupResult, NamedValue, OsRequest, ParentRequest, RaisedException, Received,
    RequestKind, ResourceLimits,
};
use crate::text::{byte_len, cat2, cat3, cat4, cat5, decimal, decimal_of, same};
use vstd::prelude::*;
use vstd::string::*;

verus! {

/// What the host loop should do after a turn.
#[derive(Clone, Copy, Debug, PartialEq, Eq, Structural)]
pub enum HandleOutcome {
    /// Keep serving the next request.
    Continue,
    /// The child should exit cleanly.
    Shutdown,
    /// The child emitted a fatal error and must terminate.
    Fatal,
}

/// What a suspended session waits for.
#[derive(Clone, Copy, Debug, PartialEq, Eq, Structural)]
pub enum Pending {
    FunctionCall(u32),
    OsCall(u32),
    NameLookup,
    ResolveFutures,
}

/// REPL session state of the child.
#[derive(Debug)]
pub enum SessionState<R, S> {
    /// No interpreter session yet. `Some` once a configuration is stored; the
    /// session itself is built by the first feed or dump.
    Configured(Option<Configure>),
    /// Ready for the next feed.
    Ready(R),
    /// Mid-feed, waiting for a resume request.
    Suspended(Pending, S),
}

/// All state of one protocol child.
#[derive(Debug)]
pub struct Child<R, S> {
    pub state: SessionState<R, S>,
    /// Script name of the current session.
    pub script_name: String,
    /// `Some` when the session was created with type checking.
    pub type_check: Option<TypeCheckState>,
}

/// The interpreter session to build from a configuration.
#[derive(Debug)]
pub struct ReplSpec {
    pub script_name: String,
    pub limits: Option<ResourceLimits>,
    /// Absent means the interpreter's default.
    pub assert_message_annotations: Option<u32>,
}

/// What a session is built for.
#[derive(Debug)]
pub enum BuildFor {
    Feed(Feed),
    Dump,
}

/// What a suspended session is resumed with.
#[derive(Debug)]
pub enum ResumeWith {
    Call(ExtFunctionResult),
    Name(NameLookupResult),
    Futures(Vec<(u32, ExtFunctionResult)>),
}

/// What comes next in a turn.
#[derive(Debug)]
pub enum Step<R, S> {
    /// There is nothing to answer.
    Nothing,
    /// Stamp and send this event; the turn has ended and serving goes on.
    Respond(ChildEvent),
    /// Send this event as it is; the turn has ended with this outcome.
    Send(ChildEvent, HandleOutcome),
    /// Send the child's last event with this message and stop.
    Fatal(String, HandleOutcome),
    /// Build an interpreter session; hand it to `built`.
    Build(ReplSpec, BuildFor),
    /// Type-check the feed against the stubs; hand the verdict to `checked`.
    Check { stubs: Option<String>, script_name: String, feed: Feed },
    /// Start the snippet; hand the outcome to `drive`.
    Start { repl: R, code: String, inputs: Vec<(String, MontyObject)> },
    /// Resume the session; hand the outcome to `drive`.
    Resume { suspension: S, with: ResumeWith },
    /// Find the encoded length of the event; hand it to `measured`.
    Measure { pending: Pending, suspension: S, event: ChildEvent },
    /// Turn the suspended session back into an idle one; hand it to `abort_feed_with_runtime_error`.
    Abandon { suspension: S, message: String },
    /// Serialize the idle session; hand the bytes to `dumped`.
    DumpIdle,
    /// Serialize the suspended session; hand the bytes to `dumped`.
    DumpSuspended,
    /// Load an idle session; hand the outcome to `loaded`.
    LoadIdle { meta: SessionMeta, payload: Vec<u8> },
    /// Load a suspended session; hand the outcome to `loaded`.
    LoadSuspended { meta: SessionMeta, payload: Vec<u8> },
}

/// Verdict of the type checker.
#[derive(Debug)]
pub enum Verdict {
    Passed,
    /// The diagnostics of a snippet that does not check.
    Rejected(String),
    /// The checker itself failed.
    Failed(String),
}

/// Where a session is suspended.
#[derive(Debug)]
pub enum SuspendedAt {
    FunctionCall(FunctionCall),
    OsCall { call_id: u32, call: OsRequest },
    NameLookup(String),
    ResolveFutures(Vec<u32>),
}

/// What running sandboxed code came to.
#[derive(Debug)]
pub enum Outcome<R, S> {
    /// The snippet ended; `too_deep` when the value nests too deeply to be sent.
    Complete { repl: R, value: MontyObject, too_deep: bool },
    /// The snippet waits; `too_deep` when an argument nests too deeply to be sent.
    Suspended { at: SuspendedAt, too_deep: bool, suspension: S },
    /// The snippet raised.
    Failed { repl: R, error: RaisedException },
}

/// What loading a dump came to.
#[derive(Debug)]
pub enum LoadOutcome<R, S> {
    Idle(R),
    IdleFailed(String),
    Complete { repl: R, value: MontyObject },
    Suspended { at: SuspendedAt, suspension: S },
    SuspendedFailed(String),
}

/// The time accounting of a session.
#[derive(Clone, Copy, Debug, PartialEq, Eq, Structural)]
pub struct Timing {
    pub elapsed_micros: u128,
    pub max_duration_micros: Option<u128>,
}

/// A request frame as it arrived.
#[derive(Debug)]
pub enum RequestFrame {
    /// There was no frame.
    Empty,
    Request(ParentRequest),
    /// The frame is whole but its body does not decode.
    Malformed(String),
    /// Framing itself is broken.
    Broken(String),
}

/// A request as far as its framing goes.
pub enum OpenedRequest<'a> {
    /// There is nothing to decode.
    Settled(RequestFrame),
    /// The body to decode; hand the outcome to `decoded_request`.
    Body(&'a [u8]),
}

/// Reads the one frame of a request: nothing, its body, or broken framing.
pub fn open_request(bytes: &[u8]) -> (r: OpenedRequest<'_>)
    ensures
        match first_frame(bytes@) {
            Ok(None) => r is Settled && r->Settled_0 is Empty,
            Ok(Some((body, _))) => r is Body && r->Body_0@ == body,
            Err(e) => r is Settled && r->Settled_0 is Broken && r->Settled_0->Broken_0@ == error_text(e),
        },
{
    match read_frame(bytes) {
        Ok(None) => OpenedRequest::Settled(RequestFrame::Empty),
        Ok(Some((body, _))) => OpenedRequest::Body(body),
        Err(e) => OpenedRequest::Settled(RequestFrame::Broken(e.text())),
    }
}

/// The request frame of a decoded body; one that does not decode is malformed.
pub fn decoded_request(decoded: Result<ParentRequest, String>) -> (r: RequestFrame)
    ensures
        r == match decoded {
            Ok(request) => RequestFrame::Request(request),
            Err(reason) => RequestFrame::Malformed(reason),
        },
{
    match decoded {
        Ok(request) => RequestFrame::Request(request),
        Err(reason) => RequestFrame::Malformed(reason),
    }
}

// ---------------------------------------------------------------------------
// Events
// ---------------------------------------------------------------------------

/// What the event of a suspension waits for.
pub open spec fn pending_of(at: SuspendedAt) -> Pending {
    match at {
        SuspendedAt::FunctionCall(call) => Pending::FunctionCall(call.call_id),
        SuspendedAt::OsCall { call_id, .. } => Pending::OsCall(call_id),
        SuspendedAt::NameLookup(_) => Pending::NameLookup,
        SuspendedAt::ResolveFutures(_) => Pending::ResolveFutures,
    }
}

/// The event that announces a suspension.
pub open spec fn suspension_kind(at: SuspendedAt) -> EventKind {
    match at {
        SuspendedAt::FunctionCall(call) => EventKind::FunctionCall(call),
        SuspendedAt::OsCall { call_id, call } => EventKind::OsCall { call_id, call },
        SuspendedAt::NameLookup(name) => EventKind::NameLookup(name),
        SuspendedAt::ResolveFutures(ids) => EventKind::ResolveFutures(ids),
    }
}

/// Builds the event that announces a suspension, with what it waits for.
pub fn suspension_event(at: SuspendedAt) -> (r: (Pending, ChildEvent))
    ensures
        r.0 == pending_of(at),
        r.1 == ChildEvent::plain(suspension_kind(at)),
{
    match at {
        SuspendedAt::FunctionCall(call) => (Pending::FunctionCall(call.call_id), event(EventKind::FunctionCall(call))),
        SuspendedAt::OsCall { call_id, call } => (Pending::OsCall(call_id), event(EventKind::OsCall { call_id, call })),
        SuspendedAt::NameLookup(name) => (Pending::NameLookup, event(EventKind::NameLookup(name))),
        SuspendedAt::ResolveFutures(ids) => (Pending::ResolveFutures, event(EventKind::ResolveFutures(ids))),
    }
}

/// What is said of a suspension whose event does not fit a frame.
pub open spec fn oversize_message(encoded_len: nat) -> Seq<char> {
    "argument frame of "@ + decimal(capped_u32(encoded_len) as nat) + " bytes exceeds the maximum of "@
        + decimal(MAX_FRAME_LEN as nat) + " bytes"@
}

/// Describes a suspension announcement that would exceed the frame limit.
pub fn oversize_suspension_error_message(encoded_len: usize) -> (r: Option<String>)
    ensures
        r is Some <==> encoded_len > MAX_FRAME_LEN,
        r is Some ==> r->Some_0@ == oversize_message(encoded_len as nat),
{
    let len: u32 = as_u32(encoded_len);
    if len > MAX_FRAME_LEN {
        Some(
            cat5(
                "argument frame of ",
                decimal_of(len as u64).as_str(),
                " bytes exceeds the maximum of ",
                decimal_of(MAX_FRAME_LEN as u64).as_str(),
                " bytes",
            ),
        )
    } else {
        None
    }
}

// ---------------------------------------------------------------------------
// Inputs
// ---------------------------------------------------------------------------

/// What is wrong with the first bad input.
pub open spec fn input_error(inputs: Seq<NamedValue>) -> Option<Seq<char>>
    decreases inputs.len(),
{
    if inputs.len() == 0 {
        None
    } else {
        match inputs[0].value {
            Received::Missing => Some("input "@ + debug_text(inputs[0].name@) + " has no value"@),
            Received::Invalid(err) => Some("invalid input "@ + debug_text(inputs[0].name@) + ": "@ + err@),
            Received::Value(_) => input_error(inputs.skip(1)),
        }
    }
}

/// The name and value of each input.
pub open spec fn input_pairs(inputs: Seq<NamedValue>) -> Seq<(String, MontyObject)> {
    inputs.map_values(|input: NamedValue| (input.name, input.value->Value_0))
}

/// Converts named inputs into name and value pairs.
pub fn named_inputs(inputs: Vec<NamedValue>) -> (r: Result<Vec<(String, MontyObject)>, String>)
    ensures
        r is Ok <==> input_error(inputs@) is None,
        r is Ok ==> r->Ok_0@ == input_pairs(inputs@),
        r is Err ==> r->Err_0@ == input_error(inputs@)->Some_0,
{
    let ghost all = inputs@;
    let mut pairs: Vec<(String, MontyObject)> = Vec::new();
    proof {
        assert(all.skip(0) =~= all);
    }
    for input in it: inputs
        invariant
            it.seq() == all,
            input_error(all) == input_error(all.skip(it.index() as int)),
            pairs@ == input_pairs(all.take(it.index() as int)),
    {
        let ghost i = it.index() as int;
        proof {
            assert(all.skip(i)[0] == all[i]);
            assert(all.skip(i).skip(1) =~= all.skip(i + 1));
            assert(input_pairs(all.take(i + 1)) =~= input_pairs(all.take(i)).push(
                (all[i].name, all[i].value->Value_0),
            ));
        }
        match input.value {
            Received::Missing => {
                return Err(cat3("input ", debug_quoted(input.name.as_str()).as_str(), " has no value"));
            },
            Received::Invalid(err) => {
                return Err(cat4("invalid input ", debug_quoted(input.name.as_str()).as_str(), ": ", err.as_str()));
            },
            Received::Value(value) => pairs.push((input.name, value)),
        }
    }
    proof {
        assert(all.take(all.len() as int) =~= all);
        assert(all.skip(all.len() as int).len() == 0);
    }
    Ok(pairs)
}

// ---------------------------------------------------------------------------
// What each request leads to
// ---------------------------------------------------------------------------

impl<R, S> Step<R, S> {
    /// The turn ends with a protocol violation.
    pub open spec fn is_violation(self, message: Seq<char>) -> bool {
        self is Respond && self->Respond_0.is_violation(message)
    }

    /// The turn ends here.
    pub open spec fn ends_turn(self) -> bool {
        self is Nothing || self is Respond || self is Send || self is Fatal
    }

    /// The turn ends here with one turn-ending event.
    pub open spec fn answers(self) -> bool {
        match self {
            Step::Respond(e) => e.kind is Some && e.kind->Some_0.ends_turn(),
            Step::Send(e, _) => e.kind is Some && e.kind->Some_0.ends_turn(),
            Step::Fatal(_, _) => true,
            _ => false,
        }
    }
}

/// The message of a version mismatch.
pub open spec fn skew_message(parent: Seq<char>) -> Seq<char> {
    "version skew: parent="@ + debug_text(parent) + " child="@ + debug_text(version_text())
}

/// The type-check state of a session built from `configure`.
pub open spec fn configured_type_check(configure: Configure) -> Option<TypeCheckView> {
    if configure.type_check {
        Some(
            TypeCheckView {
                committed_stubs: match configure.type_check_stubs {
                    Some(stubs) => stubs@,
                    None => Seq::empty(),
                },
                pending_snippet: None,
            },
        )
    } else {
        None
    }
}

/// A configured child sets out to build its session: the configuration is used
/// up, and the script name and type-check state of the session are in place.
pub open spec fn builds<R, S>(pre: Child<R, S>, post: Child<R, S>, configure: Configure, purpose: BuildFor, step: Step<R, S>) -> bool {
    &&& post.state == SessionState::<R, S>::Configured(None)
    &&& post.script_name == configure.script_name
    &&& type_check_view(post.type_check) == configured_type_check(configure)
    &&& step is Build
    &&& step->Build_0 == (ReplSpec {
        script_name: configure.script_name,
        limits: configure.limits,
        assert_message_annotations: configure.assert_message_annotations,
    })
    &&& step->Build_1 == purpose
}

/// An idle session starts the snippet, or refuses its inputs.
pub open spec fn starts<R, S>(pre: Child<R, S>, post: Child<R, S>, feed: Feed, step: Step<R, S>) -> bool {
    match input_error(feed.inputs@) {
        Some(message) => post == pre && step.is_violation(message),
        None => {
            &&& post.state == SessionState::<R, S>::Configured(None)
            &&& post.script_name == pre.script_name
            &&& post.type_check == match pre.type_check {
                Some(tc) => if feed.skip_type_check {
                    Some(tc)
                } else {
                    Some(TypeCheckState { committed_stubs: tc.committed_stubs, pending_snippet: Some(feed.code) })
                },
                None => None,
            }
            &&& step is Start
            &&& step->repl == pre.state->Ready_0
            &&& step->code == feed.code
            &&& step->inputs@ == input_pairs(feed.inputs@)
        },
    }
}

/// An idle session has the snippet type-checked where that is asked for, and
/// starts it otherwise.
pub open spec fn checks_or_starts<R, S>(pre: Child<R, S>, post: Child<R, S>, feed: Feed, step: Step<R, S>) -> bool {
    if !feed.skip_type_check && pre.type_check is Some {
        let committed = pre.type_check->Some_0.committed_stubs@;
        &&& post == pre
        &&& step is Check
        &&& step->Check_feed == feed
        &&& step->Check_script_name@ == pre.script_name@
        &&& step->stubs is Some <==> committed.len() > 0
        &&& step->stubs is Some ==> step->stubs->Some_0@ == committed
    } else {
        starts(pre, post, feed, step)
    }
}

/// What a feed leads to.
pub open spec fn feeds<R, S>(pre: Child<R, S>, post: Child<R, S>, feed: Feed, step: Step<R, S>) -> bool {
    match pre.state {
        SessionState::Configured(None) => post == pre && step.is_violation("session has not been configured"@),
        SessionState::Configured(Some(configure)) => builds(pre, post, configure, BuildFor::Feed(feed), step),
        SessionState::Suspended(_, _) => post == pre && step.is_violation("Feed without a session ready for input"@),
        SessionState::Ready(_) => checks_or_starts(pre, post, feed, step),
    }
}

/// What a dump leads to.
pub open spec fn dumps<R, S>(pre: Child<R, S>, post: Child<R, S>, step: Step<R, S>) -> bool {
    match pre.state {
        SessionState::Configured(None) => post == pre && step.is_violation("session has not been configured"@),
        SessionState::Configured(Some(configure)) => builds(pre, post, configure, BuildFor::Dump, step),
        SessionState::Suspended(_, _) => post == pre && step == Step::<R, S>::DumpSuspended,
        SessionState::Ready(_) => post == pre && step == Step::<R, S>::DumpIdle,
    }
}

/// The session is resumed and is running until its outcome is handed back.
pub open spec fn resumes<R, S>(pre: Child<R, S>, post: Child<R, S>, payload: ResumeWith, step: Step<R, S>) -> bool {
    &&& post == (Child { state: SessionState::<R, S>::Configured(None), ..pre })
    &&& step == (Step::<R, S>::Resume { suspension: pre.state->Suspended_1, with: payload })
}

/// The id of the function or OS call that the child waits for.
pub open spec fn awaited_call<R, S>(c: Child<R, S>) -> Option<u32> {
    match c.state {
        SessionState::Suspended(Pending::FunctionCall(id), _) => Some(id),
        SessionState::Suspended(Pending::OsCall(id), _) => Some(id),
        _ => None,
    }
}

/// What the answer to a call leads to.
pub open spec fn resumes_call<R, S>(
    pre: Child<R, S>,
    post: Child<R, S>,
    call_id: u32,
    result: Received<ExtFunctionResult>,
    step: Step<R, S>,
) -> bool {
    match awaited_call(pre) {
        None => post == pre && step.is_violation("ResumeCall without a suspended function/OS call"@),
        Some(id) => if call_id != id {
            post == pre && step.is_violation(
                "ResumeCall call_id "@ + decimal(call_id as nat) + " does not match "@ + decimal(id as nat),
            )
        } else {
            match result {
                Received::Missing => post == pre && step.is_violation("ResumeCall has no result"@),
                Received::Invalid(err) => post == pre && step.is_violation("invalid result: "@ + err@),
                Received::Value(result) => resumes(pre, post, ResumeWith::Call(result), step),
            }
        },
    }
}

/// What the answer to a name lookup leads to.
pub open spec fn resumes_name<R, S>(
    pre: Child<R, S>,
    post: Child<R, S>,
    result: Result<NameLookupResult, String>,
    step: Step<R, S>,
) -> bool {
    if !(pre.state is Suspended && pre.state->Suspended_0 is NameLookup) {
        post == pre && step.is_violation("ResumeNameLookup without a suspended name lookup"@)
    } else {
        match result {
            Err(err) => post == pre && step.is_violation("invalid result: "@ + err@),
            Ok(result) => resumes(pre, post, ResumeWith::Name(result), step),
        }
    }
}

/// What the results of futures lead to.
pub open spec fn resumes_futures<R, S>(
    pre: Child<R, S>,
    post: Child<R, S>,
    results: Result<Vec<(u32, ExtFunctionResult)>, String>,
    step: Step<R, S>,
) -> bool {
    if !(pre.state is Suspended && pre.state->Suspended_0 is ResolveFutures) {
        post == pre && step.is_violation("ResumeFutures without suspended futures"@)
    } else {
        match results {
            Err(err) => post == pre && step.is_violation("invalid results: "@ + err@),
            Ok(results) => resumes(pre, post, ResumeWith::Futures(results), step),
        }
    }
}

/// What a dump to be restored leads to. The child itself changes only once the
/// payload has been loaded.
pub open spec fn loads<R, S>(pre: Child<R, S>, post: Child<R, S>, state: Seq<u8>, step: Step<R, S>) -> bool {
    &&& post == pre
    &&& if !(pre.state is Configured) {
        step.is_violation("Load requires a session that has not started (a feed has already run)"@)
    } else {
        match parse_dump_spec(state) {
            Err(message) => step.is_violation(message),
            Ok((tag, meta, payload)) => if tag == TAG_IDLE {
                step is LoadIdle && step->LoadIdle_meta@ == meta && step->LoadIdle_payload@ == payload
            } else if tag == TAG_SUSPENDED {
                step is LoadSuspended && step->LoadSuspended_meta@ == meta && step->LoadSuspended_payload@ == payload
            } else {
                step.is_violation("unknown dump tag "@ + decimal(tag as nat))
            },
        }
    }
}

/// A child without a session.
pub open spec fn is_blank<R, S>(c: Child<R, S>) -> bool {
    &&& c.state == SessionState::<R, S>::Configured(None)
    &&& c.script_name@ == Seq::<char>::empty()
    &&& c.type_check is None
}

/// What a request leads to.
pub open spec fn handles<R, S>(pre: Child<R, S>, post: Child<R, S>, request: ParentRequest, step: Step<R, S>) -> bool {
    match request.kind {
        None => {
            &&& post == pre
            &&& step is Send
            &&& step->Send_0.is_violation("request has no kind"@)
            &&& step->Send_1 is Continue
        },
        Some(RequestKind::Configure(configure)) => if configure.monty_version@.len() > 0 && configure.monty_version@
            != version_text() {
            &&& post == pre
            &&& step is Fatal
            &&& step->Fatal_0@ == skew_message(configure.monty_version@)
            &&& step->Fatal_1 is Fatal
        } else if pre.state == SessionState::<R, S>::Configured(None) {
            &&& post == (Child { state: SessionState::<R, S>::Configured(Some(configure)), ..pre })
            &&& step == Step::<R, S>::Respond(ChildEvent::plain(EventKind::Okay))
        } else {
            post == pre && step.is_violation("Configure while a session already exists"@)
        },
        Some(RequestKind::Feed(feed)) => feeds(pre, post, feed, step),
        Some(RequestKind::InstallDependencies(_)) => {
            &&& post == pre
            &&& step is Respond
            &&& step->Respond_0.is_error(
                ExcType::RuntimeError,
                "dependency installation is only supported by the CPython worker"@,
            )
        },
        Some(RequestKind::ResumeCall { call_id, result }) => resumes_call(pre, post, call_id, result, step),
        Some(RequestKind::ResumeNameLookup(result)) => resumes_name(pre, post, result, step),
        Some(RequestKind::ResumeFutures(results)) => resumes_futures(pre, post, results, step),
        Some(RequestKind::Dump) => dumps(pre, post, step),
        Some(RequestKind::Load(state)) => loads(pre, post, state@, step),
        Some(RequestKind::Reset) => is_blank(post) && step == Step::<R, S>::Respond(ChildEvent::plain(EventKind::Okay)),
        Some(RequestKind::Shutdown) => post == pre && step == Step::<R, S>::Send(
            ChildEvent::plain(EventKind::Okay),
            HandleOutcome::Shutdown,
        ),
    }
}

/// The stubs after a snippet has completed: it joins them on a line of its own.
pub open spec fn committed(tc: Option<TypeCheckView>) -> Option<TypeCheckView> {
    match tc {
        None => None,
        Some(tc) => match tc.pending_snippet {
            None => Some(tc),
            Some(snippet) => Some(
                TypeCheckView {
                    committed_stubs: tc.committed_stubs.push('\n') + snippet,
                    pending_snippet: None,
                },
            ),
        },
    }
}

/// The stubs after a snippet has failed: it is forgotten.
pub open spec fn discarded(tc: Option<TypeCheckView>) -> Option<TypeCheckView> {
    match tc {
        None => None,
        Some(tc) => Some(TypeCheckView { committed_stubs: tc.committed_stubs, pending_snippet: None }),
    }
}

/// What an outcome of running sandboxed code leads to.
pub open spec fn drives<R, S>(pre: Child<R, S>, post: Child<R, S>, outcome: Outcome<R, S>, step: Step<R, S>) -> bool {
    &&& post.script_name == pre.script_name
    &&& match outcome {
        Outcome::Complete { repl, value, too_deep } => {
            &&& post.state == SessionState::<R, S>::Ready(repl)
            &&& type_check_view(post.type_check) == committed(type_check_view(pre.type_check))
            &&& step is Respond
            &&& if too_deep {
                step->Respond_0.is_error(ExcType::RuntimeError, "Max output depth exceeded"@)
            } else {
                step->Respond_0 == ChildEvent::plain(EventKind::Complete(value))
            }
        },
        Outcome::Failed { repl, error } => {
            &&& post.state == SessionState::<R, S>::Ready(repl)
            &&& type_check_view(post.type_check) == discarded(type_check_view(pre.type_check))
            &&& step == Step::<R, S>::Respond(ChildEvent::plain(EventKind::Error(error)))
        },
        Outcome::Suspended { at, too_deep, suspension } => if at is NameLookup || at is ResolveFutures {
            &&& post.state == SessionState::<R, S>::Suspended(pending_of(at), suspension)
            &&& post.type_check == pre.type_check
            &&& step == Step::<R, S>::Respond(ChildEvent::plain(suspension_kind(at)))
        } else if too_deep {
            &&& post == pre
            &&& step is Resume
            &&& step->Resume_suspension == suspension
            &&& step->with is Call
            &&& step->with->Call_0 is Error
            &&& step->with->Call_0->Error_0.says(ExcType::RuntimeError, "Max argument depth exceeded"@)
        } else {
            &&& post == pre
            &&& step == (Step::<R, S>::Measure {
                pending: pending_of(at),
                suspension,
                event: ChildEvent::plain(suspension_kind(at)),
            })
        },
    }
}

/// What a loaded dump leads to. The metadata is adopted, and its script name
/// announced, only when the payload did load.
pub open spec fn restores<R, S>(
    pre: Child<R, S>,
    post: Child<R, S>,
    meta: SessionMeta,
    outcome: LoadOutcome<R, S>,
    e: ChildEvent,
) -> bool {
    match outcome {
        LoadOutcome::IdleFailed(err) => post == pre && e.is_violation("failed to load session: "@ + err@),
        LoadOutcome::SuspendedFailed(err) => post == pre && e.is_violation(
            "failed to load suspended session: "@ + err@,
        ),
        _ => {
            &&& post.script_name == meta.script_name
            &&& post.type_check == meta.type_check
            &&& e.restored_script_name == Some(meta.script_name)
            &&& e.total_execution_micros == 0
            &&& e.max_duration_micros is None
            &&& match outcome {
                LoadOutcome::Idle(repl) => post.state == SessionState::<R, S>::Ready(repl) && e.kind == Some(
                    EventKind::Okay,
                ),
                LoadOutcome::Complete { repl, value } => post.state == SessionState::<R, S>::Ready(repl) && e.kind
                    == Some(EventKind::Complete(value)),
                LoadOutcome::Suspended { at, suspension } => post.state == SessionState::<R, S>::Suspended(
                    pending_of(at),
                    suspension,
                ) && e.kind == Some(suspension_kind(at)),
                _ => false,
            }
        },
    }
}

/// `n`, cut off at the largest `u64`.
pub fn micros_u64(n: u128) -> (r: u64)
    ensures
        r == capped(n as nat),
{
    if n > 0xffff_ffff_ffff_ffff { 0xffff_ffff_ffff_ffff } else { n as u64 }
}

/// An event with the accounting of the session, where there is one.
pub open spec fn stamped<R, S>(c: Child<R, S>, e: ChildEvent, timing: Timing) -> ChildEvent {
    if c.state is Configured {
        e
    } else {
        ChildEvent {
            total_execution_micros: capped(timing.elapsed_micros as nat),
            max_duration_micros: match timing.max_duration_micros {
                Some(max) => Some(capped(max as nat)),
                None => None,
            },
            ..e
        }
    }
}

/// The state of the child as a dump would record it.
pub open spec fn meta_of<R, S>(c: Child<R, S>) -> MetaView {
    MetaView { script_name: c.script_name@, type_check: type_check_view(c.type_check) }
}

// ---------------------------------------------------------------------------
// The child
// ---------------------------------------------------------------------------

impl<R, S> Child<R, S> {
    /// A child without a session.
    #[must_use]
    pub fn new() -> (r: Child<R, S>)
        ensures
            is_blank(r),
    {
        Child { state: SessionState::Configured(None), script_name: String::new(), type_check: None }
    }

    /// Handles one request up to the end of the turn or to the next piece of
    /// work for the interpreter.
    pub fn handle(&mut self, request: ParentRequest) -> (step: Step<R, S>)
        ensures
            handles(*old(self), *final(self), request, step),
    {
        let kind: RequestKind = match request.kind {
            None => return Step::Send(protocol_violation("request has no kind"), HandleOutcome::Continue),
            Some(kind) => kind,
        };
        match kind {
            RequestKind::Configure(configure) => {
                if !configure.monty_version.as_str().is_empty() && !same(
                    configure.monty_version.as_str(),
                    monty_version().as_str(),
                ) {
                    let message: String = cat4(
                        "version skew: parent=",
                        debug_quoted(configure.monty_version.as_str()).as_str(),
                        " child=",
                        debug_quoted(monty_version().as_str()).as_str(),
                    );
                    return Step::Fatal(message, HandleOutcome::Fatal);
                }
                Step::Respond(self.handle_configure(configure))
            },
            RequestKind::Feed(feed) => self.handle_repl_feed(feed),
            RequestKind::InstallDependencies(_) => Step::Respond(
                error_event(
                    ExcType::RuntimeError,
                    "dependency installation is only supported by the CPython worker",
                ),
            ),
            RequestKind::ResumeCall { call_id, result } => self.handle_resume_call(call_id, result),
            RequestKind::ResumeNameLookup(result) => self.handle_resume_name_lookup(result),
            RequestKind::ResumeFutures(results) => self.handle_resume_futures(results),
            RequestKind::Dump => self.handle_dump(),
            RequestKind::Load(state) => self.handle_load(state),
            RequestKind::Reset => {
                self.reset();
                Step::Respond(ok_event())
            },
            RequestKind::Shutdown => Step::Send(ok_event(), HandleOutcome::Shutdown),
        }
    }

    /// Handles one request frame. A body that does not decode is a recoverable
    /// violation; broken framing ends the child.
    pub fn dispatch_into(&mut self, frame: RequestFrame) -> (step: Step<R, S>)
        ensures
            match frame {
                RequestFrame::Request(request) => handles(*old(self), *final(self), request, step),
                RequestFrame::Empty => *final(self) == *old(self) && step is Nothing,
                RequestFrame::Malformed(err) => {
                    &&& *final(self) == *old(self)
                    &&& step is Send
                    &&& step->Send_0.is_violation("malformed request: "@ + err@)
                    &&& step->Send_1 is Continue
                },
                RequestFrame::Broken(err) => {
                    &&& *final(self) == *old(self)
                    &&& step is Fatal
                    &&& step->Fatal_0@ == "malformed request frame: "@ + err@
                    &&& step->Fatal_1 is Shutdown
                },
            },
    {
        match frame {
            RequestFrame::Request(request) => self.handle(request),
            RequestFrame::Empty => Step::Nothing,
            RequestFrame::Malformed(err) => Step::Send(
                protocol_violation(cat2("malformed request: ", err.as_str()).as_str()),
                HandleOutcome::Continue,
            ),
            RequestFrame::Broken(err) => Step::Fatal(
                cat2("malformed request frame: ", err.as_str()),
                HandleOutcome::Shutdown,
            ),
        }
    }

    /// Builds the last event of the child, with the accounting of the session.
    #[must_use]
    pub fn fatal_event(&self, message: &str, timing: Timing) -> (e: ChildEvent)
        ensures
            exists|f: ChildEvent| f.is_fatal(message@) && e == stamped(*self, f, timing),
    {
        let fatal: ChildEvent = fatal_error_event(message);
        let ghost f = fatal;
        let e: ChildEvent = self.stamp_execution_time(fatal, timing);
        proof {
            assert(f.is_fatal(message@) && e == stamped(*self, f, timing));
        }
        e
    }

    /// Stamps execution time and the time limit onto a turn-ending event; left
    /// alone when no session exists.
    pub fn stamp_execution_time(&self, e: ChildEvent, timing: Timing) -> (r: ChildEvent)
        ensures
            r == stamped(*self, e, timing),
    {
        match &self.state {
            SessionState::Configured(_) => e,
            _ => ChildEvent {
                kind: e.kind,
                restored_script_name: e.restored_script_name,
                total_execution_micros: micros_u64(timing.elapsed_micros),
                max_duration_micros: match timing.max_duration_micros {
                    Some(max) => Some(micros_u64(max)),
                    None => None,
                },
            },
        }
    }

    /// Recovers from a failure to send a turn-ending event: an event that is
    /// too large is replaced by an error unless the session is suspended.
    pub fn recover_send_error(&self, err: FrameError, timing: Timing) -> (r: Result<ChildEvent, FrameError>)
        ensures
            r is Ok <==> err is FrameTooLarge && !(self.state is Suspended),
            r is Ok ==> exists|e: ChildEvent|
                e.is_error(
                    ExcType::RuntimeError,
                    "result frame of "@ + decimal(err->len as nat) + " bytes exceeds the maximum of "@ + decimal(
                        err->max as nat,
                    ) + " bytes"@,
                ) && r->Ok_0 == stamped(*self, e, timing),
            r is Err ==> r->Err_0 == err,
    {
        match err {
            FrameError::FrameTooLarge { len, max } => {
                if let SessionState::Suspended(_, _) = &self.state {
                    return Err(FrameError::FrameTooLarge { len, max });
                }
                let message: String = cat5(
                    "result frame of ",
                    decimal_of(len as u64).as_str(),
                    " bytes exceeds the maximum of ",
                    decimal_of(max as u64).as_str(),
                    " bytes",
                );
                let error: ChildEvent = error_event(ExcType::RuntimeError, message.as_str());
                let ghost e = error;
                let r: ChildEvent = self.stamp_execution_time(error, timing);
                proof {
                    assert(e.is_error(ExcType::RuntimeError, message@) && r == stamped(*self, e, timing));
                }
                Ok(r)
            },
            other => Err(other),
        }
    }

    /// Stores the session configuration.
    fn handle_configure(&mut self, configure: Configure) -> (e: ChildEvent)
        ensures
            old(self).state == SessionState::<R, S>::Configured(None) ==> {
                &&& *final(self) == (Child { state: SessionState::<R, S>::Configured(Some(configure)), ..*old(self) })
                &&& e == ChildEvent::plain(EventKind::Okay)
            },
            old(self).state != SessionState::<R, S>::Configured(None) ==> *final(self) == *old(self) && e.is_violation(
                "Configure while a session already exists"@,
            ),
    {
        if let SessionState::Configured(None) = &self.state {
            self.state = SessionState::Configured(Some(configure));
            ok_event()
        } else {
            protocol_violation("Configure while a session already exists")
        }
    }

    /// Sets out to build the session from its configuration.
    fn ensure_repl(&mut self, purpose: BuildFor) -> (step: Step<R, S>)
        requires
            old(self).state is Configured,
        ensures
            match old(self).state->Configured_0 {
                None => *final(self) == *old(self) && step.is_violation("session has not been configured"@),
                Some(configure) => builds(*old(self), *final(self), configure, purpose, step),
            },
    {
        let mut taken: SessionState<R, S> = SessionState::Configured(None);
        core::mem::swap(&mut self.state, &mut taken);
        match taken {
            SessionState::Configured(Some(configure)) => {
                self.script_name = configure.script_name.clone();
                self.type_check = if configure.type_check {
                    let committed_stubs: String = match configure.type_check_stubs {
                        Some(stubs) => stubs,
                        None => String::new(),
                    };
                    Some(TypeCheckState { committed_stubs, pending_snippet: None })
                } else {
                    None
                };
                Step::Build(
                    ReplSpec {
                        script_name: configure.script_name,
                        limits: configure.limits,
                        assert_message_annotations: configure.assert_message_annotations,
                    },
                    purpose,
                )
            },
            _ => Step::Respond(protocol_violation("session has not been configured")),
        }
    }

    /// Takes in the session that was asked for.
    pub fn built(&mut self, repl: R, purpose: BuildFor) -> (step: Step<R, S>)
        ensures
            ({
                let ready = Child { state: SessionState::<R, S>::Ready(repl), ..*old(self) };
                match purpose {
                    BuildFor::Feed(feed) => checks_or_starts(ready, *final(self), feed, step),
                    BuildFor::Dump => *final(self) == ready && step == Step::<R, S>::DumpIdle,
                }
            }),
    {
        self.state = SessionState::Ready(repl);
        match purpose {
            BuildFor::Feed(feed) => self.check_feed(feed),
            BuildFor::Dump => Step::DumpIdle,
        }
    }

    fn handle_repl_feed(&mut self, feed: Feed) -> (step: Step<R, S>)
        ensures
            feeds(*old(self), *final(self), feed, step),
    {
        match &self.state {
            SessionState::Configured(_) => self.ensure_repl(BuildFor::Feed(feed)),
            SessionState::Suspended(_, _) => Step::Respond(
                protocol_violation("Feed without a session ready for input"),
            ),
            SessionState::Ready(_) => self.check_feed(feed),
        }
    }

    /// Has a snippet type-checked where that is asked for, else starts it.
    fn check_feed(&mut self, feed: Feed) -> (step: Step<R, S>)
        requires
            old(self).state is Ready,
        ensures
            checks_or_starts(*old(self), *final(self), feed, step),
    {
        if !feed.skip_type_check {
            if let Some(tc) = &self.type_check {
                let stubs: Option<String> = if tc.committed_stubs.as_str().is_empty() {
                    None
                } else {
                    Some(tc.committed_stubs.clone())
                };
                return Step::Check { stubs, script_name: self.script_name.clone(), feed };
            }
        }
        self.start_feed(feed)
    }

    /// Takes in the type checker's verdict on a feed.
    pub fn checked(&mut self, feed: Feed, verdict: Verdict) -> (step: Step<R, S>)
        requires
            old(self).state is Ready,
        ensures
            match verdict {
                Verdict::Passed => starts(*old(self), *final(self), feed, step),
                Verdict::Rejected(diagnostics) => *final(self) == *old(self) && step == Step::<R, S>::Respond(
                    ChildEvent::plain(EventKind::TypingError(diagnostics)),
                ),
                Verdict::Failed(err) => *final(self) == *old(self) && step.is_violation(
                    "type checker failed: "@ + err@,
                ),
            },
    {
        match verdict {
            Verdict::Passed => self.start_feed(feed),
            Verdict::Rejected(diagnostics) => Step::Respond(event(EventKind::TypingError(diagnostics))),
            Verdict::Failed(err) => Step::Respond(
                protocol_violation(cat2("type checker failed: ", err.as_str()).as_str()),
            ),
        }
    }

    /// Starts a snippet on the idle session.
    fn start_feed(&mut self, feed: Feed) -> (step: Step<R, S>)
        requires
            old(self).state is Ready,
        ensures
            starts(*old(self), *final(self), feed, step),
    {
        let inputs: Vec<(String, MontyObject)> = match named_inputs(feed.inputs) {
            Ok(inputs) => inputs,
            Err(message) => return Step::Respond(protocol_violation(message.as_str())),
        };
        let mut taken: SessionState<R, S> = SessionState::Configured(None);
        core::mem::swap(&mut self.state, &mut taken);
        if !feed.skip_type_check {
            let mut tc: Option<TypeCheckState> = None;
            core::mem::swap(&mut self.type_check, &mut tc);
            self.type_check = match tc {
                Some(tc) => Some(
                    TypeCheckState { committed_stubs: tc.committed_stubs, pending_snippet: Some(feed.code.clone()) },
                ),
                None => None,
            };
        }
        match taken {
            SessionState::Ready(repl) => Step::Start { repl, code: feed.code, inputs },
            _ => Step::Nothing,
        }
    }

    fn handle_resume_call(&mut self, call_id: u32, result: Received<ExtFunctionResult>) -> (step: Step<R, S>)
        ensures
            resumes_call(*old(self), *final(self), call_id, result, step),
    {
        let expected: u32 = match &self.state {
            SessionState::Suspended(Pending::FunctionCall(id), _) => *id,
            SessionState::Suspended(Pending::OsCall(id), _) => *id,
            _ => return Step::Respond(protocol_violation("ResumeCall without a suspended function/OS call")),
        };
        if call_id != expected {
            let message: String = cat4(
                "ResumeCall call_id ",
                decimal_of(call_id as u64).as_str(),
                " does not match ",
                decimal_of(expected as u64).as_str(),
            );
            return Step::Respond(protocol_violation(message.as_str()));
        }
        match result {
            Received::Missing => Step::Respond(protocol_violation("ResumeCall has no result")),
            Received::Invalid(err) => Step::Respond(
                protocol_violation(cat2("invalid result: ", err.as_str()).as_str()),
            ),
            Received::Value(result) => self.resume(ResumeWith::Call(result)),
        }
    }

    fn handle_resume_name_lookup(&mut self, result: Result<NameLookupResult, String>) -> (step: Step<R, S>)
        ensures
            resumes_name(*old(self), *final(self), result, step),
    {
        match &self.state {
            SessionState::Suspended(Pending::NameLookup, _) => {},
            _ => return Step::Respond(protocol_violation("ResumeNameLookup without a suspended name lookup")),
        }
        match result {
            Err(err) => Step::Respond(protocol_violation(cat2("invalid result: ", err.as_str()).as_str())),
            Ok(result) => self.resume(ResumeWith::Name(result)),
        }
    }

    fn handle_resume_futures(&mut self, results: Result<Vec<(u32, ExtFunctionResult)>, String>) -> (step: Step<R, S>)
        ensures
            resumes_futures(*old(self), *final(self), results, step),
    {
        match &self.state {
            SessionState::Suspended(Pending::ResolveFutures, _) => {},
            _ => return Step::Respond(protocol_violation("ResumeFutures without suspended futures")),
        }
        match results {
            Err(err) => Step::Respond(protocol_violation(cat2("invalid results: ", err.as_str()).as_str())),
            Ok(results) => self.resume(ResumeWith::Futures(results)),
        }
    }

    /// Hands out the suspended session to be resumed.
    fn resume(&mut self, payload: ResumeWith) -> (step: Step<R, S>)
        requires
            old(self).state is Suspended,
        ensures
            resumes(*old(self), *final(self), payload, step),
    {
        let mut taken: SessionState<R, S> = SessionState::Configured(None);
        core::mem::swap(&mut self.state, &mut taken);
        match taken {
            SessionState::Suspended(_, suspension) => Step::Resume { suspension, with: payload },
            _ => Step::Nothing,
        }
    }

    /// Sets out to serialize the session, which stays live.
    fn handle_dump(&mut self) -> (step: Step<R, S>)
        ensures
            dumps(*old(self), *final(self), step),
    {
        match &self.state {
            SessionState::Configured(_) => self.ensure_repl(BuildFor::Dump),
            SessionState::Ready(_) => Step::DumpIdle,
            SessionState::Suspended(_, _) => Step::DumpSuspended,
        }
    }

    /// Whether the texts of the session fit the dump envelope.
    pub fn dumpable(&self) -> (r: bool)
        ensures
            r == meta_of(*self).fits(),
    {
        if byte_len(self.script_name.as_str()) > 0xffff_ffff {
            return false;
        }
        match &self.type_check {
            None => true,
            Some(tc) => {
                if byte_len(tc.committed_stubs.as_str()) > 0xffff_ffff {
                    return false;
                }
                match &tc.pending_snippet {
                    None => true,
                    Some(snippet) => byte_len(snippet.as_str()) <= 0xffff_ffff,
                }
            },
        }
    }

    /// Takes in the serialized session.
    pub fn dumped(&self, result: Result<Vec<u8>, String>) -> (e: ChildEvent)
        requires
            meta_of(*self).fits(),
        ensures
            match result {
                Ok(payload) => {
                    &&& e.kind is Some
                    &&& e.kind->Some_0 is DumpResult
                    &&& e == ChildEvent::plain(e.kind->Some_0)
                    &&& e.kind->Some_0->DumpResult_0@ == dump_bytes(
                        if self.state is Suspended { TAG_SUSPENDED } else { TAG_IDLE },
                        meta_of(*self),
                        payload@,
                    )
                },
                Err(err) => e.is_violation("dump failed: "@ + err@),
            },
    {
        match result {
            Ok(payload) => {
                let tag: u8 = match &self.state {
                    SessionState::Suspended(_, _) => TAG_SUSPENDED,
                    _ => TAG_IDLE,
                };
                event(
                    EventKind::DumpResult(
                        build_dump(tag, self.script_name.as_str(), &self.type_check, payload.as_slice()),
                    ),
                )
            },
            Err(err) => protocol_violation(cat2("dump failed: ", err.as_str()).as_str()),
        }
    }

    /// Sets out to restore a dump; valid only before a session has started.
    fn handle_load(&mut self, state: Vec<u8>) -> (step: Step<R, S>)
        ensures
            loads(*old(self), *final(self), state@, step),
    {
        match &self.state {
            SessionState::Configured(_) => {},
            _ => return Step::Respond(
                protocol_violation("Load requires a session that has not started (a feed has already run)"),
            ),
        }
        match parse_dump(state.as_slice()) {
            Err(message) => Step::Respond(protocol_violation(message.as_str())),
            Ok((tag, meta, payload)) => {
                if tag == TAG_IDLE {
                    Step::LoadIdle { meta, payload }
                } else if tag == TAG_SUSPENDED {
                    Step::LoadSuspended { meta, payload }
                } else {
                    Step::Respond(
                        protocol_violation(cat2("unknown dump tag ", decimal_of(tag as u64).as_str()).as_str()),
                    )
                }
            },
        }
    }

    /// Takes in what loading a dump came to.
    pub fn loaded(&mut self, meta: SessionMeta, outcome: LoadOutcome<R, S>) -> (e: ChildEvent)
        ensures
            restores(*old(self), *final(self), meta, outcome, e),
    {
        let announced: ChildEvent = match outcome {
            LoadOutcome::IdleFailed(err) => {
                return protocol_violation(cat2("failed to load session: ", err.as_str()).as_str());
            },
            LoadOutcome::SuspendedFailed(err) => {
                return protocol_violation(cat2("failed to load suspended session: ", err.as_str()).as_str());
            },
            LoadOutcome::Idle(repl) => {
                self.state = SessionState::Ready(repl);
                ok_event()
            },
            LoadOutcome::Complete { repl, value } => {
                self.state = SessionState::Ready(repl);
                complete_event(value)
            },
            LoadOutcome::Suspended { at, suspension } => {
                let (pending, announced) = suspension_event(at);
                self.state = SessionState::Suspended(pending, suspension);
                announced
            },
        };
        self.script_name = meta.script_name;
        self.type_check = meta.type_check;
        ChildEvent {
            kind: announced.kind,
            restored_script_name: Some(self.script_name.clone()),
            total_execution_micros: announced.total_execution_micros,
            max_duration_micros: announced.max_duration_micros,
        }
    }

    /// Takes in what running sandboxed code came to.
    pub fn drive(&mut self, outcome: Outcome<R, S>) -> (step: Step<R, S>)
        ensures
            drives(*old(self), *final(self), outcome, step),
    {
        match outcome {
            Outcome::Complete { repl, value, too_deep } => {
                self.state = SessionState::Ready(repl);
                self.commit_pending();
                if too_deep {
                    Step::Respond(error_event(ExcType::RuntimeError, "Max output depth exceeded"))
                } else {
                    Step::Respond(complete_event(value))
                }
            },
            Outcome::Failed { repl, error } => {
                self.state = SessionState::Ready(repl);
                self.discard_pending();
                Step::Respond(error_from_exception(error))
            },
            Outcome::Suspended { at, too_deep, suspension } => {
                let parent_call: bool = match &at {
                    SuspendedAt::FunctionCall(_) => true,
                    SuspendedAt::OsCall { .. } => true,
                    _ => false,
                };
                if parent_call && too_deep {
                    let error: RaisedException = RaisedException::new(
                        ExcType::RuntimeError,
                        "Max argument depth exceeded".to_owned(),
                    );
                    return Step::Resume { suspension, with: ResumeWith::Call(ExtFunctionResult::Error(error)) };
                }
                let (pending, announced) = suspension_event(at);
                if parent_call {
                    Step::Measure { pending, suspension, event: announced }
                } else {
                    self.state = SessionState::Suspended(pending, suspension);
                    Step::Respond(announced)
                }
            },
        }
    }

    /// Takes in the encoded length of a call's announcement: the session is
    /// suspended, unless the announcement does not fit a frame.
    pub fn measured(&mut self, pending: Pending, suspension: S, announced: ChildEvent, encoded_len: usize) -> (step: Step<
        R,
        S,
    >)
        ensures
            encoded_len <= MAX_FRAME_LEN ==> {
                &&& *final(self) == (Child {
                    state: SessionState::<R, S>::Suspended(pending, suspension),
                    ..*old(self)
                })
                &&& step == Step::<R, S>::Respond(announced)
            },
            encoded_len > MAX_FRAME_LEN ==> {
                &&& *final(self) == *old(self)
                &&& step is Abandon
                &&& step->Abandon_suspension == suspension
                &&& step->message@ == oversize_message(encoded_len as nat)
            },
    {
        match oversize_suspension_error_message(encoded_len) {
            Some(message) => Step::Abandon { suspension, message },
            None => {
                self.state = SessionState::Suspended(pending, suspension);
                Step::Respond(announced)
            },
        }
    }

    /// Ends the current feed with a runtime error while keeping the session usable.
    pub fn abort_feed_with_runtime_error(&mut self, repl: R, message: String) -> (e: ChildEvent)
        ensures
            final(self).state == SessionState::<R, S>::Ready(repl),
            final(self).script_name == old(self).script_name,
            type_check_view(final(self).type_check) == discarded(type_check_view(old(self).type_check)),
            e.is_error(ExcType::RuntimeError, message@),
    {
        self.state = SessionState::Ready(repl);
        self.discard_pending();
        error_event(ExcType::RuntimeError, message.as_str())
    }

    fn commit_pending(&mut self)
        ensures
            final(self).state == old(self).state,
            final(self).script_name == old(self).script_name,
            type_check_view(final(self).type_check) == committed(type_check_view(old(self).type_check)),
    {
        let mut tc: Option<TypeCheckState> = None;
        core::mem::swap(&mut self.type_check, &mut tc);
        self.type_check = match tc {
            None => None,
            Some(tc) => match tc.pending_snippet {
                None => Some(TypeCheckState { committed_stubs: tc.committed_stubs, pending_snippet: None }),
                Some(snippet) => {
                    let mut committed_stubs: String = tc.committed_stubs;
                    committed_stubs.push('\n');
                    committed_stubs.append(snippet.as_str());
                    Some(TypeCheckState { committed_stubs, pending_snippet: None })
                },
            },
        };
    }

    fn discard_pending(&mut self)
        ensures
            final(self).state == old(self).state,
            final(self).script_name == old(self).script_name,
            type_check_view(final(self).type_check) == discarded(type_check_view(old(self).type_check)),
    {
        let mut tc: Option<TypeCheckState> = None;
        core::mem::swap(&mut self.type_check, &mut tc);
        self.type_check = match tc {
            None => None,
            Some(tc) => Some(TypeCheckState { committed_stubs: tc.committed_stubs, pending_snippet: None }),
        };
    }

    /// Drops all session state.
    pub fn reset(&mut self)
        ensures
            is_blank(*final(self)),
    {
        self.state = SessionState::Configured(None);
        self.type_check = None;
        self.script_name = String::new();
    }
}

impl<R, S> Default for Child<R, S> {
    fn default() -> (r: Child<R, S>)
        ensures
            is_blank(r),
    {
        Child::new()
    }
}

/// What ends the child when even its answer cannot be sent.
pub fn give_up(err: FrameError) -> (r: (Option<String>, HandleOutcome))
    ensures
        r.1 is Shutdown,
        r.0 is Some <==> err is FrameTooLarge,
        r.0 is Some ==> r.0->Some_0@ == "response frame of "@ + decimal(err->len as nat)
            + " bytes exceeds maximum of "@ + decimal(err->max as nat) + " bytes"@,
{
    match err {
        FrameError::FrameTooLarge { len, max } => (
            Some(
                cat5(
                    "response frame of ",
                    decimal_of(len as u64).as_str(),
                    " bytes exceeds maximum of ",
                    decimal_of(max as u64).as_str(),
                    " bytes",
                ),
            ),
            HandleOutcome::Shutdown,
        ),
        _ => (None, HandleOutcome::Shutdown),
    }
}

// ---------------------------------------------------------------------------
// Laws
// ---------------------------------------------------------------------------

/// A request that breaks the protocol leaves the child as it was.
pub proof fn law_violation_keeps_child<R, S>(
    pre: Child<R, S>,
    post: Child<R, S>,
    request: ParentRequest,
    step: Step<R, S>,
    message: Seq<char>,
)
    requires
        handles(pre, post, request, step),
        step.is_violation(message) || (step is Send && step->Send_0.is_violation(message)),
    ensures
        post == pre,
{
}

/// A dump that fails to load leaves the child un-started and able to load another.
pub proof fn law_failed_load_keeps_child<R, S>(
    pre: Child<R, S>,
    mid: Child<R, S>,
    post: Child<R, S>,
    bytes: Seq<u8>,
    step: Step<R, S>,
    meta: SessionMeta,
    outcome: LoadOutcome<R, S>,
    e: ChildEvent,
)
    requires
        loads(pre, mid, bytes, step),
        restores(mid, post, meta, outcome, e),
        outcome is IdleFailed || outcome is SuspendedFailed,
    ensures
        post == pre,
{
}

/// What one child dumps, another that has not started takes apart into the
/// same metadata and payload, as an idle or a suspended session.
pub proof fn law_load_takes_what_dump_wrote<R, S>(
    dumped: Child<R, S>,
    payload: Seq<u8>,
    fresh: Child<R, S>,
    after: Child<R, S>,
    step: Step<R, S>,
)
    requires
        !(dumped.state is Configured),
        meta_of(dumped).fits(),
        fresh.state is Configured,
        loads(
            fresh,
            after,
            dump_bytes(if dumped.state is Suspended { TAG_SUSPENDED } else { TAG_IDLE }, meta_of(dumped), payload),
            step,
        ),
    ensures
        after == fresh,
        dumped.state is Suspended ==> step is LoadSuspended && step->LoadSuspended_meta@ == meta_of(dumped)
            && step->LoadSuspended_payload@ == payload,
        dumped.state is Ready ==> step is LoadIdle && step->LoadIdle_meta@ == meta_of(dumped)
            && step->LoadIdle_payload@ == payload,
{
    law_dump_round_trip(
        if dumped.state is Suspended { TAG_SUSPENDED } else { TAG_IDLE },
        meta_of(dumped),
        payload,
    );
}

/// A restored child has the script name and type-check state of the dump.
pub proof fn law_restored_child_adopts_metadata<R, S>(
    pre: Child<R, S>,
    post: Child<R, S>,
    meta: SessionMeta,
    outcome: LoadOutcome<R, S>,
    e: ChildEvent,
)
    requires
        restores(pre, post, meta, outcome, e),
        !(outcome is IdleFailed),
        !(outcome is SuspendedFailed),
    ensures
        meta_of(post) == meta@,
        !(post.state is Configured),
        e.restored_script_name is Some,
        e.restored_script_name->Some_0@ == meta@.script_name,
{
}

/// A snippet that was started and ran to its end joins the stubs exactly when
/// its feed was not excluded from type checking; one that failed never does.
pub proof fn law_only_checked_snippets_become_stubs<R, S>(
    pre: Child<R, S>,
    running: Child<R, S>,
    post: Child<R, S>,
    feed: Feed,
    start: Step<R, S>,
    outcome: Outcome<R, S>,
    step: Step<R, S>,
)
    requires
        pre.state is Ready,
        idle_is_settled(pre),
        input_error(feed.inputs@) is None,
        starts(pre, running, feed, start),
        drives(running, post, outcome, step),
    ensures
        outcome is Failed ==> type_check_view(post.type_check) == type_check_view(pre.type_check),
        outcome is Complete && feed.skip_type_check ==> type_check_view(post.type_check) == type_check_view(
            pre.type_check,
        ),
        outcome is Complete && !feed.skip_type_check && pre.type_check is Some ==> type_check_view(post.type_check)
            == Some(
            TypeCheckView {
                committed_stubs: pre.type_check->Some_0.committed_stubs@.push('\n') + feed.code@,
                pending_snippet: None,
            },
        ),
        pre.type_check is None ==> post.type_check is None,
{
}

/// Every request is answered: where its turn ends, it ends with one turn-ending
/// event, and where it does not, there is work for the interpreter. So too
/// behind a type check, a start and a run of sandboxed code.
pub proof fn law_every_turn_is_answered<R, S>(
    pre: Child<R, S>,
    post: Child<R, S>,
    request: ParentRequest,
    feed: Feed,
    outcome: Outcome<R, S>,
    step: Step<R, S>,
)
    requires
        handles(pre, post, request, step) || checks_or_starts(pre, post, feed, step) || starts(pre, post, feed, step)
            || drives(pre, post, outcome, step),
        step.ends_turn(),
    ensures
        step.answers(),
{
}

/// Serving goes on after every answer but those to a shutdown and to a parent
/// of another version.
pub proof fn law_only_shutdown_and_skew_stop_the_child<R, S>(
    pre: Child<R, S>,
    post: Child<R, S>,
    request: ParentRequest,
    step: Step<R, S>,
)
    requires
        handles(pre, post, request, step),
    ensures
        (step is Send && !(step->Send_1 is Continue)) || step is Fatal ==> request.kind is Some && match request.kind->Some_0 {
            RequestKind::Shutdown => step is Send && step->Send_1 is Shutdown,
            RequestKind::Configure(configure) => step is Fatal && step->Fatal_1 is Fatal
                && configure.monty_version@.len() > 0 && configure.monty_version@ != version_text(),
            _ => false,
        },
{
}

/// An idle session has no snippet pending.
pub open spec fn idle_is_settled<R, S>(c: Child<R, S>) -> bool {
    c.state is Ready && c.type_check is Some ==> c.type_check->Some_0.pending_snippet is None
}

/// No request and no run of sandboxed code leaves a snippet pending on an idle
/// session.
pub proof fn law_idle_sessions_are_settled<R, S>(
    pre: Child<R, S>,
    post: Child<R, S>,
    request: ParentRequest,
    outcome: Outcome<R, S>,
    step: Step<R, S>,
)
    requires
        idle_is_settled(pre),
        handles(pre, post, request, step) || drives(pre, post, outcome, step),
    ensures
        idle_is_settled(post),
{
}

/// A session that is built from a configuration starts out settled.
pub proof fn law_built_sessions_are_settled<R, S>(
    pre: Child<R, S>,
    mid: Child<R, S>,
    configure: Configure,
    purpose: BuildFor,
    step: Step<R, S>,
    repl: R,
)
    requires
        builds(pre, mid, configure, purpose, step),
    ensures
        idle_is_settled(Child { state: SessionState::<R, S>::Ready(repl), ..mid }),
{
}

/// When running ends a turn, the child is suspended exactly if the event says
/// that sandboxed code waits, and is ready for the next feed otherwise.
pub proof fn law_turn_end_matches_state<R, S>(
    pre: Child<R, S>,
    post: Child<R, S>,
    outcome: Outcome<R, S>,
    step: Step<R, S>,
)
    requires
        drives(pre, post, outcome, step),
        step.ends_turn(),
    ensures
        step is Respond,
        step->Respond_0.kind is Some,
        step->Respond_0.kind->Some_0.ends_turn(),
        step->Respond_0.kind->Some_0.suspends() ==> post.state is Suspended,
        !step->Respond_0.kind->Some_0.suspends() ==> post.state is Ready,
{
}

proof fn lemma_input_error(inputs: Seq<NamedValue>, bad: int)
    requires
        0 <= bad <= inputs.len(),
        forall|i: int| 0 <= i < bad ==> (#[trigger] inputs[i]).value is Value,
        bad < inputs.len() ==> !(inputs[bad].value is Value),
    ensures
        input_error(inputs) is None <==> bad == inputs.len(),
        bad < inputs.len() ==> input_error(inputs) == input_error(inputs.skip(bad)) && inputs.skip(bad)[0] == inputs[bad],
    decreases bad,
{
    if bad > 0 {
        let rest = inputs.skip(1);
        assert(inputs[0].value is Value);
        assert forall|i: int| 0 <= i < bad - 1 implies (#[trigger] rest[i]).value is Value by {
            assert(rest[i] == inputs[i + 1]);
        }
        if bad < inputs.len() {
            assert(rest[bad - 1] == inputs[bad]);
        }
        lemma_input_error(rest, bad - 1);
        assert(rest.skip(bad - 1) =~= inputs.skip(bad));
    } else {
        assert(inputs.skip(0) =~= inputs);
    }
}

/// Where every input carries a value, the snippet starts on the idle session
/// with as many inputs as were sent, in the same order, each under its own name
/// and with its own value.
pub proof fn law_sound_feeds_start_with_their_inputs<R, S>(
    pre: Child<R, S>,
    post: Child<R, S>,
    feed: Feed,
    step: Step<R, S>,
)
    requires
        pre.state is Ready,
        starts(pre, post, feed, step),
        forall|i: int| 0 <= i < feed.inputs@.len() ==> (#[trigger] feed.inputs@[i]).value is Value,
    ensures
        step is Start,
        pre.state == SessionState::<R, S>::Ready(step->repl),
        step->code == feed.code,
        step->inputs@.len() == feed.inputs@.len(),
        forall|i: int|
            0 <= i < feed.inputs@.len() ==> (#[trigger] step->inputs@[i]).0 == feed.inputs@[i].name
                && feed.inputs@[i].value == Received::Value(step->inputs@[i].1),
        post.script_name == pre.script_name,
        !(post.state is Ready),
{
    lemma_input_error(feed.inputs@, feed.inputs@.len() as int);
}

/// The first input without a usable value is named in the refusal, and the
/// session stays as it was.
pub proof fn law_first_bad_input_is_refused<R, S>(
    pre: Child<R, S>,
    post: Child<R, S>,
    feed: Feed,
    step: Step<R, S>,
    bad: int,
)
    requires
        starts(pre, post, feed, step),
        0 <= bad < feed.inputs@.len(),
        !(feed.inputs@[bad].value is Value),
        forall|i: int| 0 <= i < bad ==> (#[trigger] feed.inputs@[i]).value is Value,
    ensures
        post == pre,
        feed.inputs@[bad].value is Missing ==> step.is_violation(
            "input "@ + debug_text(feed.inputs@[bad].name@) + " has no value"@,
        ),
        feed.inputs@[bad].value is Invalid ==> step.is_violation(
            "invalid input "@ + debug_text(feed.inputs@[bad].name@) + ": "@ + feed.inputs@[bad].value->Invalid_0@,
        ),
{
    lemma_input_error(feed.inputs@, bad);
}

/// The first feed of a configured session builds it as the configuration says
/// and keeps the snippet for it; the stubs of the configuration are in place.
pub proof fn law_sessions_are_built_as_configured<R, S>(
    pre: Child<R, S>,
    post: Child<R, S>,
    configure: Configure,
    feed: Feed,
    request: ParentRequest,
    step: Step<R, S>,
)
    requires
        pre.state == SessionState::<R, S>::Configured(Some(configure)),
        request.kind == Some(RequestKind::Feed(feed)) || request.kind == Some(RequestKind::Dump),
        handles(pre, post, request, step),
    ensures
        step is Build,
        step->Build_0.script_name == configure.script_name,
        step->Build_0.limits == configure.limits,
        step->Build_0.assert_message_annotations == configure.assert_message_annotations,
        request.kind == Some(RequestKind::Feed(feed)) ==> step->Build_1 == BuildFor::Feed(feed),
        request.kind == Some(RequestKind::Dump) ==> step->Build_1 is Dump,
        post.state == SessionState::<R, S>::Configured(None),
        post.script_name == configure.script_name,
        post.type_check is Some <==> configure.type_check,
        configure.type_check ==> post.type_check->Some_0.pending_snippet is None,
        configure.type_check && configure.type_check_stubs is Some ==> post.type_check->Some_0.committed_stubs@
            == configure.type_check_stubs->Some_0@,
        configure.type_check && configure.type_check_stubs is None ==> post.type_check->Some_0.committed_stubs@.len() == 0,
{
    if configure.type_check {
        assert(type_check_view(post.type_check) is Some);
        let tc = post.type_check->Some_0;
        assert(tc@ == configured_type_check(configure)->Some_0);
    }
}

/// A configuration is stored where there is none and no session, and is kept
/// for the first feed; a second one is refused.
pub proof fn law_one_configuration_per_session<R, S>(
    pre: Child<R, S>,
    post: Child<R, S>,
    configure: Configure,
    step: Step<R, S>,
)
    requires
        handles(pre, post, ParentRequest { kind: Some(RequestKind::Configure(configure)) }, step),
        configure.monty_version@ == version_text() || configure.monty_version@.len() == 0,
    ensures
        pre.state == SessionState::<R, S>::Configured(None) ==> {
            &&& post.state == SessionState::<R, S>::Configured(Some(configure))
            &&& post.script_name == pre.script_name
            &&& post.type_check == pre.type_check
            &&& step is Respond
            &&& step->Respond_0.kind == Some(EventKind::Okay)
        },
        pre.state != SessionState::<R, S>::Configured(None) ==> post == pre && step is Respond,
{
}

/// A snippet is checked exactly where the session checks and the feed does not
/// opt out, against all the stubs so far; otherwise it is started, and nothing
/// is checked.
pub proof fn law_snippets_are_checked_where_asked<R, S>(
    pre: Child<R, S>,
    post: Child<R, S>,
    feed: Feed,
    step: Step<R, S>,
)
    requires
        pre.state is Ready,
        handles(pre, post, ParentRequest { kind: Some(RequestKind::Feed(feed)) }, step),
    ensures
        step is Check <==> pre.type_check is Some && !feed.skip_type_check,
        step is Check ==> {
            &&& post == pre
            &&& step->Check_feed == feed
            &&& step->Check_script_name@ == pre.script_name@
            &&& step->stubs is None ==> pre.type_check->Some_0.committed_stubs@.len() == 0
            &&& step->stubs is Some ==> step->stubs->Some_0@ == pre.type_check->Some_0.committed_stubs@
                && step->stubs->Some_0@.len() > 0
        },
        !(step is Check) ==> starts(pre, post, feed, step),
{
}

/// An answer reaches the suspended session exactly where it is of the kind, and
/// for the call, that the session waits for; it is handed on as it came.
/// Any other answer leaves the session suspended.
pub proof fn law_answers_reach_what_waits_for_them<R, S>(
    pre: Child<R, S>,
    post: Child<R, S>,
    request: ParentRequest,
    step: Step<R, S>,
)
    requires
        handles(pre, post, request, step),
        request.kind is Some,
        request.kind->Some_0 is ResumeCall || request.kind->Some_0 is ResumeNameLookup
            || request.kind->Some_0 is ResumeFutures,
    ensures
        step is Resume <==> pre.state is Suspended && match request.kind->Some_0 {
            RequestKind::ResumeCall { call_id, result } => {
                &&& pre.state->Suspended_0 == Pending::FunctionCall(call_id) || pre.state->Suspended_0 == Pending::OsCall(
                    call_id,
                )
                &&& result is Value
            },
            RequestKind::ResumeNameLookup(result) => pre.state->Suspended_0 is NameLookup && result is Ok,
            RequestKind::ResumeFutures(results) => pre.state->Suspended_0 is ResolveFutures && results is Ok,
            _ => false,
        },
        step is Resume ==> {
            &&& step->Resume_suspension == pre.state->Suspended_1
            &&& match request.kind->Some_0 {
                RequestKind::ResumeCall { result, .. } => step->with is Call && result == Received::Value(
                    step->with->Call_0,
                ),
                RequestKind::ResumeNameLookup(result) => step->with is Name && result == Ok::<NameLookupResult, String>(
                    step->with->Name_0,
                ),
                RequestKind::ResumeFutures(results) => step->with is Futures && results == Ok::<
                    Vec<(u32, ExtFunctionResult)>,
                    String,
                >(step->with->Futures_0),
                _ => false,
            }
            &&& post.script_name == pre.script_name
            &&& post.type_check == pre.type_check
        },
        !(step is Resume) ==> post == pre && step is Respond,
{
}

/// A run that ends hands its session back: with the value it came to, or with
/// the exception it raised. One that waits announces what it waits for, under
/// the id that the answer has to carry.
pub proof fn law_runs_report_what_they_came_to<R, S>(
    pre: Child<R, S>,
    post: Child<R, S>,
    outcome: Outcome<R, S>,
    step: Step<R, S>,
)
    requires
        drives(pre, post, outcome, step),
    ensures
        post.script_name == pre.script_name,
        match outcome {
            Outcome::Complete { repl, value, too_deep } => {
                &&& post.state == SessionState::<R, S>::Ready(repl)
                &&& step is Respond
                &&& !too_deep ==> step->Respond_0.kind == Some(EventKind::Complete(value))
                &&& too_deep ==> step->Respond_0.is_error(ExcType::RuntimeError, "Max output depth exceeded"@)
            },
            Outcome::Failed { repl, error } => {
                &&& post.state == SessionState::<R, S>::Ready(repl)
                &&& step is Respond
                &&& step->Respond_0.kind == Some(EventKind::Error(error))
            },
            Outcome::Suspended { at: SuspendedAt::FunctionCall(call), too_deep, suspension } => {
                &&& post == pre
                &&& !too_deep ==> step is Measure && step->Measure_suspension == suspension && step->pending
                    == Pending::FunctionCall(call.call_id) && step->event.kind == Some(EventKind::FunctionCall(call))
                &&& too_deep ==> step is Resume && step->Resume_suspension == suspension && step->with is Call
                    && step->with->Call_0 is Error
            },
            Outcome::Suspended { at: SuspendedAt::OsCall { call_id, call }, too_deep, suspension } => {
                &&& post == pre
                &&& !too_deep ==> step is Measure && step->Measure_suspension == suspension && step->pending
                    == Pending::OsCall(call_id) && step->event.kind == Some(EventKind::OsCall { call_id, call })
                &&& too_deep ==> step is Resume && step->Resume_suspension == suspension && step->with is Call
                    && step->with->Call_0 is Error
            },
            Outcome::Suspended { at: SuspendedAt::NameLookup(name), suspension, .. } => {
                &&& post.state == SessionState::<R, S>::Suspended(Pending::NameLookup, suspension)
                &&& step is Respond
                &&& step->Respond_0.kind == Some(EventKind::NameLookup(name))
            },
            Outcome::Suspended { at: SuspendedAt::ResolveFutures(ids), suspension, .. } => {
                &&& post.state == SessionState::<R, S>::Suspended(Pending::ResolveFutures, suspension)
                &&& step is Respond
                &&& step->Respond_0.kind == Some(EventKind::ResolveFutures(ids))
            },
        },
{
}

/// A dump that loads gives its session back in the state that it was dumped in,
/// and announces again what a suspended one waits for.
pub proof fn law_loaded_sessions_go_on_where_they_were<R, S>(
    pre: Child<R, S>,
    post: Child<R, S>,
    meta: SessionMeta,
    outcome: LoadOutcome<R, S>,
    e: ChildEvent,
)
    requires
        restores(pre, post, meta, outcome, e),
    ensures
        match outcome {
            LoadOutcome::Idle(repl) => post.state == SessionState::<R, S>::Ready(repl) && e.kind == Some(EventKind::Okay),
            LoadOutcome::Complete { repl, value } => post.state == SessionState::<R, S>::Ready(repl) && e.kind == Some(
                EventKind::Complete(value),
            ),
            LoadOutcome::Suspended { at: SuspendedAt::FunctionCall(call), suspension } => {
                &&& post.state == SessionState::<R, S>::Suspended(Pending::FunctionCall(call.call_id), suspension)
                &&& e.kind == Some(EventKind::FunctionCall(call))
            },
            LoadOutcome::Suspended { at: SuspendedAt::OsCall { call_id, call }, suspension } => {
                &&& post.state == SessionState::<R, S>::Suspended(Pending::OsCall(call_id), suspension)
                &&& e.kind == Some(EventKind::OsCall { call_id, call })
            },
            LoadOutcome::Suspended { at: SuspendedAt::NameLookup(name), suspension } => {
                &&& post.state == SessionState::<R, S>::Suspended(Pending::NameLookup, suspension)
                &&& e.kind == Some(EventKind::NameLookup(name))
            },
            LoadOutcome::Suspended { at: SuspendedAt::ResolveFutures(ids), suspension } => {
                &&& post.state == SessionState::<R, S>::Suspended(Pending::ResolveFutures, suspension)
                &&& e.kind == Some(EventKind::ResolveFutures(ids))
            },
            LoadOutcome::IdleFailed(_) => post == pre,
            LoadOutcome::SuspendedFailed(_) => post == pre,
        },
{
}

/// A dump leaves the session as it is; one that is configured only is built
/// first, and one that is not has nothing to dump.
pub proof fn law_dumps_leave_the_session<R, S>(
    pre: Child<R, S>,
    post: Child<R, S>,
    step: Step<R, S>,
)
    requires
        handles(pre, post, ParentRequest { kind: Some(RequestKind::Dump) }, step),
    ensures
        step is DumpIdle <==> pre.state is Ready,
        step is DumpSuspended <==> pre.state is Suspended,
        step is Build <==> pre.state is Configured && pre.state->Configured_0 is Some,
        !(step is Build) ==> post == pre,
{
}

/// A reset leaves nothing of a session behind.
pub proof fn law_reset_forgets_the_session<R, S>(pre: Child<R, S>, post: Child<R, S>, step: Step<R, S>)
    requires
        handles(pre, post, ParentRequest { kind: Some(RequestKind::Reset) }, step),
    ensures
        post.state == SessionState::<R, S>::Configured(None),
        post.script_name@.len() == 0,
        post.type_check is None,
        step is Respond,
        step->Respond_0.kind == Some(EventKind::Okay),
{
}

/// The accounting of a session goes onto its events, cut off where it does not
/// fit, and changes nothing else of them; without a session there is none.
pub proof fn law_events_carry_the_accounting<R, S>(c: Child<R, S>, e: ChildEvent, timing: Timing)
    ensures
        ({
            let sent = stamped(c, e, timing);
            &&& sent.kind == e.kind
            &&& sent.restored_script_name == e.restored_script_name
            &&& c.state is Configured ==> sent == e
            &&& !(c.state is Configured) && timing.elapsed_micros <= u64::MAX ==> sent.total_execution_micros
                == timing.elapsed_micros
            &&& !(c.state is Configured) && timing.elapsed_micros > u64::MAX ==> sent.total_execution_micros == u64::MAX
            &&& !(c.state is Configured) ==> (sent.max_duration_micros is Some <==> timing.max_duration_micros is Some)
            &&& !(c.state is Configured) && timing.max_duration_micros is Some ==> sent.max_duration_micros->Some_0
                == if timing.max_duration_micros->Some_0 <= u64::MAX {
                timing.max_duration_micros->Some_0
            } else {
                u64::MAX as u128
            }
        }),
{
}

/// An announcement that does not fit says how long it is and how long it may
/// be.
pub proof fn law_oversize_messages_give_both_lengths(encoded_len: nat)
    ensures
        encoded_len <= u32::MAX ==> oversize_message(encoded_len) == "argument frame of "@ + decimal(encoded_len)
            + " bytes exceeds the maximum of "@ + decimal(268_435_456) + " bytes"@,
        encoded_len > u32::MAX ==> oversize_message(encoded_len) == oversize_message(u32::MAX as nat),
{
}

/// A version mismatch names both versions.
pub proof fn law_skew_messages_name_both_versions(parent: Seq<char>)
    ensures
        skew_message(parent) == "version skew: parent="@ + debug_text(parent) + " child="@ + debug_text("0.1.0"@),
{
}

/// A request that cannot be served leaves the child as it was and says why.
pub proof fn law_refused_requests_say_why<R, S>(
    pre: Child<R, S>,
    post: Child<R, S>,
    request: ParentRequest,
    step: Step<R, S>,
)
    requires
        handles(pre, post, request, step),
    ensures
        request.kind is None ==> post == pre && step is Send && step->Send_0.is_violation("request has no kind"@),
        request.kind is Some && request.kind->Some_0 is InstallDependencies ==> post == pre && step is Respond
            && step->Respond_0.is_error(
            ExcType::RuntimeError,
            "dependency installation is only supported by the CPython worker"@,
        ),
        request.kind is Some && (request.kind->Some_0 is Feed || request.kind->Some_0 is Dump) && pre.state
            == SessionState::<R, S>::Configured(None) ==> post == pre && step.is_violation(
            "session has not been configured"@,
        ),
        request.kind is Some && request.kind->Some_0 is Feed && pre.state is Suspended ==> post == pre
            && step.is_violation("Feed without a session ready for input"@),
        request.kind is Some && request.kind->Some_0 is ResumeCall && !(pre.state is Suspended) ==> step.is_violation(
            "ResumeCall without a suspended function/OS call"@,
        ),
        request.kind is Some && request.kind->Some_0 is ResumeNameLookup && !(pre.state is Suspended)
            ==> step.is_violation("ResumeNameLookup without a suspended name lookup"@),
        request.kind is Some && request.kind->Some_0 is ResumeFutures && !(pre.state is Suspended)
            ==> step.is_violation("ResumeFutures without suspended futures"@),
        request.kind is Some && request.kind->Some_0 is Load && !(pre.state is Configured) ==> post == pre
            && step.is_violation("Load requires a session that has not started (a feed has already run)"@),
        request.kind is Some && request.kind->Some_0 is Shutdown ==> post == pre && step is Send
            && step->Send_0.kind == Some(EventKind::Okay) && step->Send_1 is Shutdown,
{
}

/// An answer for another call names both calls.
pub proof fn law_answers_for_other_calls_are_refused<R, S>(
    pre: Child<R, S>,
    post: Child<R, S>,
    call_id: u32,
    id: u32,
    result: Received<ExtFunctionResult>,
    step: Step<R, S>,
)
    requires
        handles(pre, post, ParentRequest { kind: Some(RequestKind::ResumeCall { call_id, result }) }, step),
        pre.state is Suspended,
        pre.state->Suspended_0 == Pending::FunctionCall(id) || pre.state->Suspended_0 == Pending::OsCall(id),
        call_id != id,
    ensures
        post == pre,
        step.is_violation(
            "ResumeCall call_id "@ + decimal(call_id as nat) + " does not match "@ + decimal(id as nat),
        ),
{
}

/// A violation ends the turn with the one event that reports it.
pub proof fn law_violations_are_reported<R, S>(step: Step<R, S>, message: Seq<char>)
    requires
        step.is_violation(message),
    ensures
        step is Respond,
        step->Respond_0.is_violation(message),
        step.ends_turn(),
        step.answers(),
{
}

/// A dump records the script name and the whole type-check state.
pub proof fn law_dumps_record_the_session<R, S>(c: Child<R, S>)
    ensures
        meta_of(c).script_name == c.script_name@,
        meta_of(c).type_check is Some <==> c.type_check is Some,
        c.type_check is Some ==> meta_of(c).type_check->Some_0.committed_stubs == c.type_check->Some_0.committed_stubs@,
        c.type_check is Some ==> (meta_of(c).type_check->Some_0.pending_snippet is Some
            <==> c.type_check->Some_0.pending_snippet is Some),
        c.type_check is Some && c.type_check->Some_0.pending_snippet is Some
            ==> meta_of(c).type_check->Some_0.pending_snippet->Some_0 == c.type_check->Some_0.pending_snippet->Some_0@,
{
}

/// Whatever a run comes to, the stubs so far stay as they are: they are only ever
/// added to.
pub proof fn law_stubs_only_grow<R, S>(pre: Child<R, S>, post: Child<R, S>, outcome: Outcome<R, S>, step: Step<R, S>)
    requires
        drives(pre, post, outcome, step),
        pre.type_check is Some,
    ensures
        post.type_check is Some,
        post.type_check->Some_0.committed_stubs@.len() >= pre.type_check->Some_0.committed_stubs@.len(),
        post.type_check->Some_0.committed_stubs@.take(pre.type_check->Some_0.committed_stubs@.len() as int)
            == pre.type_check->Some_0.committed_stubs@,
{
    let before = pre.type_check->Some_0.committed_stubs@;
    assert(type_check_view(pre.type_check) is Some);
    assert(type_check_view(post.type_check) is Some);
    let after = post.type_check->Some_0.committed_stubs@;
    assert(after.take(before.len() as int) =~= before);
}

} // verus!
