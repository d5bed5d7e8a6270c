//! Messages exchanged between a parent and the child it runs sandboxed code in.

use crate::exc::ExcType;
use crate::host_path::clone_bytes;
use crate::text::{cat2, views};
use vstd::prelude::*;

verus! {

/// A value of sandboxed code.
#[derive(Debug, PartialEq)]
pub enum MontyObject {
    NoneValue,
    Bool(bool),
    Int(i64),
    Str(String),
    Bytes(Vec<u8>),
    Path(String),
    List(Vec<MontyObject>),
    Tuple(Vec<MontyObject>),
    Dict(Vec<(MontyObject, MontyObject)>),
    Function { name: String, docstring: Option<String> },
    Exception { exc_type: ExcType, arg: Option<String> },
    /// Any other value, in its wire encoding.
    Opaque(Vec<u8>),
}

/// A position in source text: 1-based line and character column.
#[derive(Clone, Copy, Debug, PartialEq, Eq, Structural)]
pub struct CodeLoc {
    pub line: u32,
    pub column: u32,
}

/// One frame of a traceback.
#[derive(Debug)]
pub struct StackFrame {
    pub filename: String,
    pub start: CodeLoc,
    pub end: CodeLoc,
    pub frame_name: Option<String>,
    /// Index of the source preview among the previews of the traceback.
    pub preview_line: Option<usize>,
    pub hide_caret: bool,
    pub hide_frame_name: bool,
}

impl StackFrame {
    /// A copy of the frame.
    pub fn duplicate(&self) -> (r: StackFrame)
        ensures
            r == *self,
    {
        StackFrame {
            filename: self.filename.clone(),
            start: self.start,
            end: self.end,
            frame_name: match &self.frame_name {
                Some(name) => Some(name.clone()),
                None => None,
            },
            preview_line: self.preview_line,
            hide_caret: self.hide_caret,
            hide_frame_name: self.hide_frame_name,
        }
    }
}

/// A traceback, outermost frame first. Frames on the same source line share
/// one preview.
#[derive(Debug)]
pub struct Traceback {
    pub frames: Vec<StackFrame>,
    pub previews: Vec<String>,
}

impl Traceback {
    /// A traceback without frames.
    pub fn empty() -> (r: Traceback)
        ensures
            r.frames@.len() == 0,
            r.previews@.len() == 0,
    {
        Traceback { frames: Vec::new(), previews: Vec::new() }
    }

    /// Every preview index points at a preview.
    pub open spec fn wf(self) -> bool {
        forall|i: int|
            0 <= i < self.frames@.len() ==> match (#[trigger] self.frames@[i]).preview_line {
                Some(k) => k < self.previews@.len(),
                None => true,
            }
    }

    /// The source preview of the frame at `i`.
    pub open spec fn preview(self, i: int) -> Option<Seq<char>> {
        match self.frames@[i].preview_line {
            Some(k) => Some(self.previews@[k as int]@),
            None => None,
        }
    }
}

/// What a codec failed on.
#[derive(Debug)]
pub enum UnicodeErrorObject {
    Bytes(Vec<u8>),
    Str(String),
}

/// The structured fields of a codec error.
#[derive(Debug)]
pub struct UnicodeErrorData {
    pub encoding: String,
    pub object: UnicodeErrorObject,
    pub start: usize,
    pub end: usize,
    pub reason: String,
}

impl UnicodeErrorData {
    /// The same fields.
    pub open spec fn same(self, other: UnicodeErrorData) -> bool {
        &&& self.encoding == other.encoding
        &&& match (self.object, other.object) {
            (UnicodeErrorObject::Bytes(a), UnicodeErrorObject::Bytes(b)) => a@ == b@,
            (UnicodeErrorObject::Str(a), UnicodeErrorObject::Str(b)) => a == b,
            _ => false,
        }
        &&& self.start == other.start
        &&& self.end == other.end
        &&& self.reason == other.reason
    }

    /// A copy of the fields.
    pub fn duplicate(&self) -> (r: UnicodeErrorData)
        ensures
            r.same(*self),
    {
        UnicodeErrorData {
            encoding: self.encoding.clone(),
            object: match &self.object {
                UnicodeErrorObject::Bytes(bytes) => UnicodeErrorObject::Bytes(clone_bytes(bytes)),
                UnicodeErrorObject::Str(text) => UnicodeErrorObject::Str(text.clone()),
            },
            start: self.start,
            end: self.end,
            reason: self.reason.clone(),
        }
    }
}

/// An exception raised by sandboxed code or on its behalf.
#[derive(Debug)]
pub struct RaisedException {
    pub exc_type: String,
    pub message: Option<String>,
    pub traceback: Traceback,
    /// The structured fields of a codec error, where it carries them.
    pub data: Option<UnicodeErrorData>,
}

impl RaisedException {
    /// An exception of this type with this message, no traceback and no
    /// structured fields.
    pub open spec fn says(self, exc_type: ExcType, message: Seq<char>) -> bool {
        &&& self.exc_type@ == exc_type.name()
        &&& self.message is Some
        &&& self.message->Some_0@ == message
        &&& self.traceback.frames@.len() == 0
        &&& self.traceback.previews@.len() == 0
        &&& self.data is None
    }

    /// An exception with a message and without traceback and structured fields.
    pub fn new(exc_type: ExcType, message: String) -> (r: RaisedException)
        ensures
            r.says(exc_type, message@),
            r.message == Some(message),
    {
        RaisedException {
            exc_type: exc_type.to_text(),
            message: Some(message),
            traceback: Traceback::empty(),
            data: None,
        }
    }
}

impl RaisedException {
    /// Two exceptions with the same type, message, traceback and structured
    /// fields.
    pub open spec fn same(self, other: RaisedException) -> bool {
        &&& self.exc_type == other.exc_type
        &&& self.message == other.message
        &&& self.traceback.frames@ == other.traceback.frames@
        &&& self.traceback.previews@ == other.traceback.previews@
        &&& match (self.data, other.data) {
            (Some(a), Some(b)) => a.same(b),
            (None, None) => true,
            _ => false,
        }
    }

    /// A copy of the exception, traceback included.
    pub fn duplicate(&self) -> (r: RaisedException)
        ensures
            r.same(*self),
    {
        let mut frames: Vec<StackFrame> = Vec::new();
        let mut i: usize = 0;
        while i < self.traceback.frames.len()
            invariant
                i <= self.traceback.frames@.len(),
                frames@ == self.traceback.frames@.take(i as int),
            decreases self.traceback.frames@.len() - i,
        {
            frames.push(self.traceback.frames[i].duplicate());
            i = i + 1;
            proof {
                assert(frames@ =~= self.traceback.frames@.take(i as int));
            }
        }
        let mut previews: Vec<String> = Vec::new();
        let mut k: usize = 0;
        while k < self.traceback.previews.len()
            invariant
                k <= self.traceback.previews@.len(),
                previews@ == self.traceback.previews@.take(k as int),
            decreases self.traceback.previews@.len() - k,
        {
            previews.push(self.traceback.previews[k].clone());
            k = k + 1;
            proof {
                assert(previews@ =~= self.traceback.previews@.take(k as int));
            }
        }
        proof {
            assert(frames@ =~= self.traceback.frames@);
            assert(previews@ =~= self.traceback.previews@);
        }
        RaisedException {
            exc_type: self.exc_type.clone(),
            message: match &self.message {
                Some(m) => Some(m.clone()),
                None => None,
            },
            traceback: Traceback { frames, previews },
            data: match &self.data {
                Some(data) => Some(data.duplicate()),
                None => None,
            },
        }
    }
}

/// The stream that a print went to.
#[derive(Clone, Copy, Debug, PartialEq, Eq, Structural)]
pub enum PrintStream {
    Stdout,
    Stderr,
}

/// A call from sandboxed code to a function of the host.
#[derive(Debug)]
pub struct FunctionCall {
    pub function_name: String,
    pub args: Vec<MontyObject>,
    pub kwargs: Vec<(MontyObject, MontyObject)>,
    pub call_id: u32,
    pub method_call: bool,
}

/// A call from sandboxed code to the operating system.
#[derive(Debug)]
pub enum OsRequest {
    /// The call, with its arguments in their wire encoding.
    Call { function_name: String, payload: Vec<u8> },
    /// The arguments have been handed out already.
    Consumed,
}

/// What a child reports.
#[derive(Debug)]
pub enum EventKind {
    /// Acknowledges a request.
    Okay,
    /// Output of sandboxed code; the turn goes on.
    Print { stream: PrintStream, text: String },
    /// A feed ended with this value.
    Complete(MontyObject),
    /// A request ended with an exception.
    Error(RaisedException),
    /// A feed was rejected by the type checker.
    TypingError(String),
    /// The child is about to exit.
    FatalError(String),
    /// Sandboxed code waits for a function of the host.
    FunctionCall(FunctionCall),
    /// Sandboxed code waits for the operating system.
    OsCall { call_id: u32, call: OsRequest },
    /// Sandboxed code waits for the value of a name.
    NameLookup(String),
    /// Sandboxed code waits for the results of earlier calls.
    ResolveFutures(Vec<u32>),
    /// The state of a session.
    DumpResult(Vec<u8>),
}

impl EventKind {
    /// Every event but a print ends the turn.
    pub open spec fn ends_turn(self) -> bool {
        !(self is Print)
    }

    /// The events at which sandboxed code waits for the parent.
    pub open spec fn suspends(self) -> bool {
        self is FunctionCall || self is OsCall || self is NameLookup || self is ResolveFutures
    }
}

/// An event with the time accounting of its session.
#[derive(Debug)]
pub struct ChildEvent {
    pub kind: Option<EventKind>,
    /// Script name of a session just restored.
    pub restored_script_name: Option<String>,
    /// Execution time spent so far.
    pub total_execution_micros: u64,
    /// Time limit of the session.
    pub max_duration_micros: Option<u64>,
}

impl ChildEvent {
    /// This event kind, with no accounting.
    pub open spec fn plain(kind: EventKind) -> ChildEvent {
        ChildEvent { kind: Some(kind), restored_script_name: None, total_execution_micros: 0, max_duration_micros: None }
    }

    /// An error event with this exception and no accounting.
    pub open spec fn is_error(self, exc_type: ExcType, message: Seq<char>) -> bool {
        &&& self.kind is Some
        &&& self.kind->Some_0 is Error
        &&& self == ChildEvent::plain(self.kind->Some_0)
        &&& self.kind->Some_0->Error_0.says(exc_type, message)
    }

    /// The answer to a request that breaks the protocol.
    pub open spec fn is_violation(self, message: Seq<char>) -> bool {
        self.is_error(ExcType::RuntimeError, "protocol violation: "@ + message)
    }

    /// The last event of a child that gives up.
    pub open spec fn is_fatal(self, message: Seq<char>) -> bool {
        &&& self.kind is Some
        &&& self.kind->Some_0 is FatalError
        &&& self == ChildEvent::plain(self.kind->Some_0)
        &&& self.kind->Some_0->FatalError_0@ == message
    }
}

/// Time, memory and other limits of a session, in their wire encoding.
#[derive(Debug)]
pub struct ResourceLimits {
    pub max_duration_micros: Option<u64>,
    /// The other limits.
    pub other: Vec<u8>,
}

/// Configuration of a session.
#[derive(Debug)]
pub struct Configure {
    pub script_name: String,
    pub limits: Option<ResourceLimits>,
    pub type_check: bool,
    pub type_check_stubs: Option<String>,
    pub assert_message_annotations: Option<u32>,
    pub monty_version: String,
}

/// A received value: absent, undecodable for the reason given, or there.
#[derive(Debug)]
pub enum Received<T> {
    Missing,
    Invalid(String),
    Value(T),
}

/// A named input of a feed.
#[derive(Debug)]
pub struct NamedValue {
    pub name: String,
    pub value: Received<MontyObject>,
}

/// A snippet to run.
#[derive(Debug)]
pub struct Feed {
    pub code: String,
    pub inputs: Vec<NamedValue>,
    pub skip_type_check: bool,
}

/// What a host function call came to.
#[derive(Debug)]
pub enum ExtFunctionResult {
    Return(MontyObject),
    Error(RaisedException),
    NotFound(String),
    /// The result will come later, under this id.
    Future(u32),
}

/// What a name stands for.
#[derive(Debug)]
pub enum NameLookupResult {
    Value(MontyObject),
    Undefined,
}

/// What a parent asks of a child. Payloads that failed to decode carry the reason.
#[derive(Debug)]
pub enum RequestKind {
    Configure(Configure),
    Feed(Feed),
    InstallDependencies(Vec<String>),
    ResumeCall { call_id: u32, result: Received<ExtFunctionResult> },
    ResumeNameLookup(Result<NameLookupResult, String>),
    ResumeFutures(Result<Vec<(u32, ExtFunctionResult)>, String>),
    Dump,
    Load(Vec<u8>),
    Reset,
    Shutdown,
}

/// A request; one without a kind breaks the protocol.
#[derive(Debug)]
pub struct ParentRequest {
    pub kind: Option<RequestKind>,
}

/// The version that parent and child must share.
pub open spec fn version_text() -> Seq<char> {
    "0.1.0"@
}

/// The version that parent and child must share.
pub fn monty_version() -> (r: String)
    ensures
        r@ == version_text(),
{
    "0.1.0".to_owned()
}

/// Rust's `Debug` notation of a text: quoted, with escapes.
pub uninterp spec fn debug_text(s: Seq<char>) -> Seq<char>;

/// `format!("{:?}")` of a `str`. The result is the text in double quotes with
/// the escapes of `str`'s `Debug` impl; which characters those are is not
/// spelled out here, only that the result depends on the text alone.
#[verifier::external_body]
pub(crate) fn debug_quoted(s: &str) -> (r: String)
    ensures
        r@ == debug_text(s@),
{
    format!("{s:?}")
}

/// Wraps an event kind into an event with zeroed accounting.
pub fn event(kind: EventKind) -> (e: ChildEvent)
    ensures
        e == ChildEvent::plain(kind),
{
    ChildEvent { kind: Some(kind), restored_script_name: None, total_execution_micros: 0, max_duration_micros: None }
}

/// The generic acknowledgement.
pub fn ok_event() -> (e: ChildEvent)
    ensures
        e == ChildEvent::plain(EventKind::Okay),
{
    event(EventKind::Okay)
}

/// A turn-ending `Error` built from an exception type and message (no traceback).
pub fn error_event(exc_type: ExcType, message: &str) -> (e: ChildEvent)
    ensures
        e.is_error(exc_type, message@),
{
    event(EventKind::Error(RaisedException::new(exc_type, message.to_owned())))
}

/// A turn-ending `Error` for a recoverable protocol violation. The state of
/// the child is left as it is.
#[must_use]
pub fn protocol_violation(message: &str) -> (e: ChildEvent)
    ensures
        e.is_violation(message@),
{
    error_event(ExcType::RuntimeError, cat2("protocol violation: ", message).as_str())
}

/// A turn-ending `Error` with a captured exception.
pub fn error_from_exception(exc: RaisedException) -> (e: ChildEvent)
    ensures
        e == ChildEvent::plain(EventKind::Error(exc)),
{
    event(EventKind::Error(exc))
}

/// The last event of a child: it exits right after sending this.
#[must_use]
pub fn fatal_error_event(message: &str) -> (e: ChildEvent)
    ensures
        e.is_fatal(message@),
{
    event(EventKind::FatalError(message.to_owned()))
}

/// The turn-ending `Complete` carrying the snippet's value.
pub fn complete_event(value: MontyObject) -> (e: ChildEvent)
    ensures
        e == ChildEvent::plain(EventKind::Complete(value)),
{
    event(EventKind::Complete(value))
}

/// Whether a requirement may be handed to the installer.
pub open spec fn requirement_allowed(requirement: Seq<char>) -> bool {
    !(requirement.len() > 0 && requirement[0] == '-')
}

/// What is said of a requirement that looks like an option.
pub open spec fn requirement_message(requirement: Seq<char>) -> Seq<char> {
    "invalid requirement "@ + debug_text(requirement)
        + ": must not start with '-' (it would be parsed as a uv option)"@
}

/// Rejects a requirement that the installer would take for an option.
pub fn validate_requirement(requirement: &str) -> (r: Result<(), String>)
    ensures
        r is Ok <==> requirement_allowed(requirement@),
        r is Err ==> r->Err_0@ == requirement_message(requirement@),
{
    let chars: Vec<char> = crate::text::chars_of(requirement);
    if chars.len() > 0 && chars[0] == '-' {
        Err(
            crate::text::cat3(
                "invalid requirement ",
                debug_quoted(requirement).as_str(),
                ": must not start with '-' (it would be parsed as a uv option)",
            ),
        )
    } else {
        Ok(())
    }
}

/// The first requirement that is not allowed.
pub open spec fn first_refused(requirements: Seq<Seq<char>>) -> Option<Seq<char>>
    decreases requirements.len(),
{
    if requirements.len() == 0 {
        None
    } else if !requirement_allowed(requirements[0]) {
        Some(requirements[0])
    } else {
        first_refused(requirements.skip(1))
    }
}

/// Validates all requirement strings before they reach the installer.
pub fn validate_requirements(requirements: &Vec<String>) -> (r: Result<(), String>)
    ensures
        r is Ok <==> first_refused(views(requirements@)) is None,
        r is Err ==> r->Err_0@ == requirement_message(first_refused(views(requirements@))->Some_0),
{
    let ghost all = views(requirements@);
    let mut i: usize = 0;
    proof {
        assert(all.skip(0) =~= all);
    }
    while i < requirements.len()
        invariant
            i <= requirements@.len(),
            all == views(requirements@),
            first_refused(all) == first_refused(all.skip(i as int)),
        decreases requirements@.len() - i,
    {
        proof {
            assert(all.skip(i as int)[0] == requirements@[i as int]@);
            assert(all.skip(i as int).skip(1) =~= all.skip(i + 1));
        }
        match validate_requirement(requirements[i].as_str()) {
            Err(message) => return Err(message),
            Ok(()) => {},
        }
        i = i + 1;
    }
    Ok(())
}

/// An error event carries an exception of the named type with the whole
/// message, without traceback, fields or accounting; a violation is a
/// `RuntimeError` whose message says so.
pub proof fn law_error_events_say_what_went_wrong(e: ChildEvent, exc_type: ExcType, message: Seq<char>)
    ensures
        e.is_error(exc_type, message) ==> {
            &&& e.kind is Some
            &&& e.kind->Some_0 is Error
            &&& e.kind->Some_0->Error_0.exc_type@ == exc_type.name()
            &&& e.kind->Some_0->Error_0.message is Some
            &&& e.kind->Some_0->Error_0.message->Some_0@ == message
            &&& e.kind->Some_0->Error_0.traceback.frames@.len() == 0
            &&& e.kind->Some_0->Error_0.data is None
            &&& e.restored_script_name is None
            &&& e.total_execution_micros == 0
            &&& e.max_duration_micros is None
        },
        e.is_violation(message) ==> {
            &&& e.kind is Some
            &&& e.kind->Some_0 is Error
            &&& e.kind->Some_0->Error_0.exc_type@ == "RuntimeError"@
            &&& e.kind->Some_0->Error_0.message is Some
            &&& e.kind->Some_0->Error_0.message->Some_0@ == "protocol violation: "@ + message
        },
        e.is_fatal(message) ==> {
            &&& e.kind is Some
            &&& e.kind->Some_0 is FatalError
            &&& e.kind->Some_0->FatalError_0@ == message
        },
{
}

/// An event kind is sent as it is, with no accounting of its own.
pub proof fn law_plain_events_carry_their_kind(kind: EventKind)
    ensures
        ChildEvent::plain(kind).kind == Some(kind),
        ChildEvent::plain(kind).restored_script_name is None,
        ChildEvent::plain(kind).total_execution_micros == 0,
        ChildEvent::plain(kind).max_duration_micros is None,
{
}

/// Requirements pass exactly where none of them begins with `-`; the first that
/// does is the one reported.
pub proof fn law_first_option_is_refused(requirements: Seq<Seq<char>>)
    ensures
        first_refused(requirements) is None <==> forall|i: int|
            0 <= i < requirements.len() && (#[trigger] requirements[i]).len() > 0 ==> requirements[i][0] != '-',
        first_refused(requirements) is Some ==> exists|i: int|
            {
                &&& 0 <= i < requirements.len()
                &&& #[trigger] requirements[i] == first_refused(requirements)->Some_0
                &&& requirements[i].len() > 0
                &&& requirements[i][0] == '-'
                &&& forall|j: int|
                    0 <= j < i && (#[trigger] requirements[j]).len() > 0 ==> requirements[j][0] != '-'
            },
    decreases requirements.len(),
{
    if requirements.len() > 0 {
        let rest = requirements.skip(1);
        law_first_option_is_refused(rest);
        assert forall|i: int| 0 < i < requirements.len() implies #[trigger] requirements[i] == rest[i - 1] by {}
        if requirement_allowed(requirements[0]) {
            if first_refused(rest) is Some {
                let k = choose|i: int|
                    {
                        &&& 0 <= i < rest.len()
                        &&& #[trigger] rest[i] == first_refused(rest)->Some_0
                        &&& rest[i].len() > 0
                        &&& rest[i][0] == '-'
                        &&& forall|j: int| 0 <= j < i && (#[trigger] rest[j]).len() > 0 ==> rest[j][0] != '-'
                    };
                assert(requirements[k + 1] == rest[k]);
                assert forall|j: int| 0 <= j < k + 1 && (#[trigger] requirements[j]).len() > 0 implies requirements[j][0] != '-' by {
                    if j > 0 {
                        assert(rest[j - 1] == requirements[j]);
                    }
                }
            } else {
                assert forall|i: int| 0 <= i < requirements.len() && (#[trigger] requirements[i]).len() > 0 implies requirements[i][0] != '-' by {
                    if i > 0 {
                        assert(rest[i - 1] == requirements[i]);
                    }
                }
            }
        } else {
            assert(requirements[0][0] == '-');
        }
    }
}

/// A copy of an exception is told from it by nothing that it carries.
pub proof fn law_copies_carry_everything(a: RaisedException, b: RaisedException)
    requires
        a.same(b),
    ensures
        a.exc_type == b.exc_type,
        a.message == b.message,
        a.traceback.frames@ == b.traceback.frames@,
        a.traceback.previews@ == b.traceback.previews@,
        a.data is Some <==> b.data is Some,
        a.data is Some ==> {
            &&& a.data->Some_0.encoding == b.data->Some_0.encoding
            &&& a.data->Some_0.start == b.data->Some_0.start
            &&& a.data->Some_0.end == b.data->Some_0.end
            &&& a.data->Some_0.reason == b.data->Some_0.reason
            &&& a.data->Some_0.object is Bytes ==> b.data->Some_0.object is Bytes && a.data->Some_0.object->Bytes_0@
                == b.data->Some_0.object->Bytes_0@
            &&& a.data->Some_0.object is Str ==> b.data->Some_0.object == a.data->Some_0.object
        },
{
}

/// A refused requirement is quoted in its message.
pub proof fn law_refused_requirements_are_quoted(requirement: Seq<char>)
    ensures
        requirement_message(requirement) == "invalid requirement "@ + debug_text(requirement)
            + ": must not start with '-' (it would be parsed as a uv option)"@,
        requirement_allowed(requirement) <==> requirement.len() == 0 || requirement[0] != '-',
{
}

} // verus!
