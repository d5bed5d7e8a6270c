//! Decisions of the JavaScript host: options, and turns as plain objects.

use crate::checkout::{MountSpec, MountSpecMode, Outgoing, PoolError, ReplConfig, ResumeValue, TurnEvent, DEFAULT_ASSERT_BYTES};
use crate::exc::ExcType;
use crate::mount_table::DEFAULT_MEMORY_USAGE_LIMIT;
use crate::proto::{MontyObject, RaisedException, ResourceLimits, StackFrame, Traceback};
use crate::python::{mode_name, parse_mount_mode};
use crate::text::{cat2, cat3, same};
use vstd::prelude::*;

verus! {

/// Session options.
pub struct NativeCheckoutOptions {
    pub script_name: String,
    pub limits: Option<ResourceLimits>,
    pub type_check: bool,
    pub type_check_stubs: Option<String>,
    /// Absent means the default truncation, 0 means off.
    pub assert_message_annotations: Option<u32>,
}

/// Pool sizes and recycling.
#[derive(Clone, Copy, Debug, PartialEq, Eq, Structural)]
pub struct NativePoolSizes {
    pub min_processes: u32,
    pub max_processes: u32,
    pub max_checkouts_per_worker: Option<u32>,
}

/// One mount entry for a feed.
pub struct NativeMount {
    pub virtual_path: String,
    pub host_path: String,
    pub mode: String,
    pub write_bytes_limit: Option<u64>,
}

/// Validates the sizes of a pool.
pub fn check_pool_sizes(sizes: NativePoolSizes) -> (r: Result<(), String>)
    ensures
        r is Ok <==> 1 <= sizes.max_processes && sizes.min_processes <= sizes.max_processes,
        r is Err ==> r->Err_0@ == if sizes.max_processes < 1 {
            "maxProcesses must be at least 1"@
        } else {
            "minProcesses cannot exceed maxProcesses"@
        },
{
    if sizes.max_processes < 1 {
        return Err("maxProcesses must be at least 1".to_owned());
    }
    if sizes.min_processes > sizes.max_processes {
        return Err("minProcesses cannot exceed maxProcesses".to_owned());
    }
    Ok(())
}

/// The session that options ask for.
pub fn checkout_config(options: NativeCheckoutOptions) -> (r: ReplConfig)
    ensures
        r == (ReplConfig {
            script_name: options.script_name,
            limits: options.limits,
            type_check: options.type_check,
            type_check_stubs: options.type_check_stubs,
            assert_message_annotations: match options.assert_message_annotations {
                Some(n) => n,
                None => DEFAULT_ASSERT_BYTES,
            },
        }),
{
    ReplConfig {
        script_name: options.script_name,
        limits: options.limits,
        type_check: options.type_check,
        type_check_stubs: options.type_check_stubs,
        assert_message_annotations: match options.assert_message_annotations {
            Some(n) => n,
            None => DEFAULT_ASSERT_BYTES,
        },
    }
}

/// The mount that an entry asks for.
pub fn mount_spec(mount: NativeMount) -> (r: Result<MountSpec, String>)
    ensures
        r is Ok ==> mode_name(r->Ok_0.mode) == mount.mode@ && r->Ok_0 == (MountSpec {
            virtual_path: mount.virtual_path,
            host_path: mount.host_path,
            mode: r->Ok_0.mode,
            write_bytes_limit: mount.write_bytes_limit,
            memory_usage_limit: DEFAULT_MEMORY_USAGE_LIMIT,
        }),
        r is Err ==> r->Err_0@ == "invalid mount mode: '"@ + mount.mode@ + "'"@,
        r is Err ==> forall|mode: MountSpecMode| #[trigger] mode_name(mode) != mount.mode@,
{
    match parse_mount_mode(mount.mode.as_str()) {
        Some(mode) => Ok(
            MountSpec {
                virtual_path: mount.virtual_path,
                host_path: mount.host_path,
                mode,
                write_bytes_limit: mount.write_bytes_limit,
                memory_usage_limit: DEFAULT_MEMORY_USAGE_LIMIT,
            },
        ),
        None => Err(cat3("invalid mount mode: '", mount.mode.as_str(), "'")),
    }
}

/// One turn's result.
#[derive(Debug)]
pub enum TurnOutcome {
    /// The turn ended in a suspension or completion.
    Event(TurnEvent),
    /// The sandbox raised; worker and session stay usable.
    Runtime(RaisedException),
    /// Type checking rejected the snippet; worker and session stay usable.
    Typing(String),
    /// The worker died; the session is lost.
    /// An exit status is given in words.
    Crashed { message: String, timed_out: bool, exit_status: Option<String> },
    /// The worker or caller violated the protocol; the session is lost.
    Protocol(String),
    /// A restore gave an idle session.
    LoadedIdle,
    /// A request without a value succeeded.
    Done,
}

/// Whether `r` is the outcome of a turn; `message` is a failure in words.
pub open spec fn is_outcome(result: Result<TurnEvent, PoolError>, message: String, r: TurnOutcome) -> bool {
    match result {
        Ok(event) => r == TurnOutcome::Event(event),
        Err(PoolError::Runtime(exc)) => r == TurnOutcome::Runtime(exc),
        Err(PoolError::Typing(diagnostics)) => r == TurnOutcome::Typing(diagnostics),
        Err(PoolError::Timeout { .. }) => r == (TurnOutcome::Crashed { message, timed_out: true, exit_status: None }),
        Err(PoolError::Crashed { status, context }) => {
            &&& r is Crashed
            &&& r->Crashed_message@ == "monty worker crashed while "@ + context@
            &&& !r->timed_out
            &&& r->exit_status == match status {
                Some(status) => Some(status.text),
                None => None,
            }
        },
        Err(_) => r == TurnOutcome::Protocol(message),
    }
}

/// The outcome of a turn; `message` is a failure in words.
pub fn turn_outcome(result: Result<TurnEvent, PoolError>, message: String) -> (r: TurnOutcome)
    ensures
        is_outcome(result, message, r),
{
    match result {
        Ok(event) => TurnOutcome::Event(event),
        Err(PoolError::Runtime(exc)) => TurnOutcome::Runtime(exc),
        Err(PoolError::Typing(diagnostics)) => TurnOutcome::Typing(diagnostics),
        Err(PoolError::Timeout { .. }) => TurnOutcome::Crashed { message, timed_out: true, exit_status: None },
        Err(PoolError::Crashed { status, context }) => TurnOutcome::Crashed {
            message: cat2("monty worker crashed while ", context.as_str()),
            timed_out: false,
            exit_status: match status {
                Some(status) => Some(status.text),
                None => None,
            },
        },
        Err(_) => TurnOutcome::Protocol(message),
    }
}

/// The outcome of a restore.
pub fn restore_outcome(result: Result<(Option<TurnEvent>, Option<String>), PoolError>, message: String) -> (r: TurnOutcome)
    ensures
        match result {
            Ok((Some(event), _)) => r == TurnOutcome::Event(event),
            Ok((None, _)) => r == TurnOutcome::LoadedIdle,
            Err(err) => is_outcome(Err(err), message, r),
        },
{
    match result {
        Ok((Some(event), _)) => TurnOutcome::Event(event),
        Ok((None, _)) => TurnOutcome::LoadedIdle,
        Err(err) => turn_outcome(Err(err), message),
    }
}

/// The value of a property of a turn object.
#[derive(Debug)]
pub enum JsField {
    Text(String),
    Number(u32),
    Flag(bool),
    Value(MontyObject),
    Values(Vec<MontyObject>),
    /// Keyword arguments cross as pairs, never as property names.
    Pairs(Vec<(MontyObject, MontyObject)>),
    Ids(Vec<u32>),
    Exception(RaisedException),
}

/// A property value, with texts as character sequences.
pub enum JsFieldView {
    Text(Seq<char>),
    Other(JsField),
}

/// The property value `f` with its text as a character sequence.
pub open spec fn field_view(f: JsField) -> JsFieldView {
    match f {
        JsField::Text(t) => JsFieldView::Text(t@),
        other => JsFieldView::Other(other),
    }
}

/// The properties of an object, in order.
pub open spec fn object_view(fields: Seq<(String, JsField)>) -> Seq<(Seq<char>, JsFieldView)> {
    fields.map_values(|f: (String, JsField)| (f.0@, field_view(f.1)))
}

/// Whether the arguments of a call fit JavaScript arrays.
pub open spec fn fits_array(n: nat) -> bool {
    n <= u32::MAX
}

/// The property that says what a turn object is.
pub open spec fn kind_field(kind: Seq<char>) -> (Seq<char>, JsFieldView) {
    ("kind"@, JsFieldView::Text(kind))
}

/// The properties of a call.
pub open spec fn call_fields(
    kind: Seq<char>,
    function_name: String,
    args: Vec<MontyObject>,
    kwargs: Vec<(MontyObject, MontyObject)>,
    call_id: u32,
) -> Seq<(Seq<char>, JsFieldView)> {
    seq![
        kind_field(kind),
        ("functionName"@, JsFieldView::Text(function_name@)),
        ("args"@, JsFieldView::Other(JsField::Values(args))),
        ("kwargs"@, JsFieldView::Other(JsField::Pairs(kwargs))),
        ("callId"@, JsFieldView::Other(JsField::Number(call_id))),
    ]
}

/// The properties of a turn object.
pub open spec fn turn_fields(outcome: TurnOutcome) -> Seq<(Seq<char>, JsFieldView)> {
    match outcome {
        TurnOutcome::Event(TurnEvent::Complete(value)) => seq![
            kind_field("complete"@),
            ("value"@, JsFieldView::Other(JsField::Value(value))),
        ],
        TurnOutcome::Event(TurnEvent::FunctionCall { function_name, args, kwargs, call_id, method_call }) => call_fields(
            "functionCall"@,
            function_name,
            args,
            kwargs,
            call_id,
        ).push(("methodCall"@, JsFieldView::Other(JsField::Flag(method_call)))),
        TurnOutcome::Event(TurnEvent::OsCall { function_name, args, kwargs, call_id, not_handled_error }) => {
            let fields = call_fields("osCall"@, function_name, args, kwargs, call_id);
            match not_handled_error {
                Some(exc) => fields.push(("notHandledError"@, JsFieldView::Other(JsField::Exception(exc)))),
                None => fields,
            }
        },
        TurnOutcome::Event(TurnEvent::NameLookup { name }) => seq![
            kind_field("nameLookup"@),
            ("name"@, JsFieldView::Text(name@)),
        ],
        TurnOutcome::Event(TurnEvent::ResolveFutures { pending_call_ids }) => seq![
            kind_field("resolveFutures"@),
            ("pendingCallIds"@, JsFieldView::Other(JsField::Ids(pending_call_ids))),
        ],
        TurnOutcome::Runtime(exc) => seq![
            kind_field("error"@),
            ("exception"@, JsFieldView::Other(JsField::Exception(exc))),
        ],
        TurnOutcome::Typing(diagnostics) => seq![
            kind_field("typingError"@),
            ("diagnostics"@, JsFieldView::Text(diagnostics@)),
        ],
        TurnOutcome::Crashed { message, timed_out, exit_status } => {
            let fields = seq![
                kind_field("crashed"@),
                ("message"@, JsFieldView::Text(message@)),
                ("timedOut"@, JsFieldView::Other(JsField::Flag(timed_out))),
            ];
            match exit_status {
                Some(status) => fields.push(("exitStatus"@, JsFieldView::Text(status@))),
                None => fields,
            }
        },
        TurnOutcome::Protocol(message) => seq![kind_field("protocol"@), ("message"@, JsFieldView::Text(message@))],
        TurnOutcome::LoadedIdle => seq![kind_field("loaded"@)],
        TurnOutcome::Done => seq![kind_field("ok"@)],
    }
}

/// Why a turn cannot be an object: its arguments do not fit an array.
pub open spec fn turn_error(outcome: TurnOutcome) -> Option<Seq<char>> {
    match outcome {
        TurnOutcome::Event(TurnEvent::FunctionCall { args, kwargs, .. }) => arguments_error(args@.len(), kwargs@.len()),
        TurnOutcome::Event(TurnEvent::OsCall { args, kwargs, .. }) => arguments_error(args@.len(), kwargs@.len()),
        _ => None,
    }
}

/// Why arguments do not fit arrays.
pub open spec fn arguments_error(args: nat, kwargs: nat) -> Option<Seq<char>> {
    if !fits_array(args) {
        Some("too many arguments"@)
    } else if !fits_array(kwargs) {
        Some("too many kwargs"@)
    } else {
        None
    }
}

fn text_field(key: &str, text: &str) -> (r: (String, JsField))
    ensures
        r.0@ == key@,
        field_view(r.1) == JsFieldView::Text(text@),
{
    (key.to_owned(), JsField::Text(text.to_owned()))
}

fn fields1(a: (String, JsField)) -> (r: Vec<(String, JsField)>)
    ensures
        object_view(r@) == seq![(a.0@, field_view(a.1))],
{
    let r: Vec<(String, JsField)> = vec![a];
    proof {
        assert(object_view(r@) =~= seq![(a.0@, field_view(a.1))]);
    }
    r
}

fn fields2(a: (String, JsField), b: (String, JsField)) -> (r: Vec<(String, JsField)>)
    ensures
        object_view(r@) == seq![(a.0@, field_view(a.1)), (b.0@, field_view(b.1))],
{
    let r: Vec<(String, JsField)> = vec![a, b];
    proof {
        assert(object_view(r@) =~= seq![(a.0@, field_view(a.1)), (b.0@, field_view(b.1))]);
    }
    r
}

fn push_field(fields: &mut Vec<(String, JsField)>, key: &str, field: JsField)
    ensures
        object_view(final(fields)@) == object_view(old(fields)@).push((key@, field_view(field))),
{
    let ghost before = fields@;
    fields.push((key.to_owned(), field));
    proof {
        assert(object_view(fields@) =~= object_view(before).push((key@, field_view(field))));
    }
}

fn call_object(
    kind: &str,
    function_name: String,
    args: Vec<MontyObject>,
    kwargs: Vec<(MontyObject, MontyObject)>,
    call_id: u32,
) -> (r: Result<Vec<(String, JsField)>, String>)
    ensures
        match arguments_error(args@.len(), kwargs@.len()) {
            Some(message) => r is Err && r->Err_0@ == message,
            None => r is Ok && object_view(r->Ok_0@) == call_fields(kind@, function_name, args, kwargs, call_id),
        },
{
    if args.len() > 0xffff_ffff {
        return Err("too many arguments".to_owned());
    }
    if kwargs.len() > 0xffff_ffff {
        return Err("too many kwargs".to_owned());
    }
    let ghost wanted = call_fields(kind@, function_name, args, kwargs, call_id);
    let mut fields: Vec<(String, JsField)> = fields2(
        text_field("kind", kind),
        text_field("functionName", function_name.as_str()),
    );
    push_field(&mut fields, "args", JsField::Values(args));
    push_field(&mut fields, "kwargs", JsField::Pairs(kwargs));
    push_field(&mut fields, "callId", JsField::Number(call_id));
    proof {
        assert(object_view(fields@) =~= wanted);
    }
    Ok(fields)
}

/// Converts a turn outcome into the properties of a turn object.
pub fn turn_to_js(outcome: TurnOutcome) -> (r: Result<Vec<(String, JsField)>, String>)
    ensures
        match turn_error(outcome) {
            Some(message) => r is Err && r->Err_0@ == message,
            None => r is Ok && object_view(r->Ok_0@) == turn_fields(outcome),
        },
{
    match outcome {
        TurnOutcome::Event(TurnEvent::Complete(value)) => Ok(
            fields2(text_field("kind", "complete"), ("value".to_owned(), JsField::Value(value))),
        ),
        TurnOutcome::Event(TurnEvent::FunctionCall { function_name, args, kwargs, call_id, method_call }) => {
            match call_object("functionCall", function_name, args, kwargs, call_id) {
                Err(message) => Err(message),
                Ok(fields) => {
                    let mut fields: Vec<(String, JsField)> = fields;
                    push_field(&mut fields, "methodCall", JsField::Flag(method_call));
                    Ok(fields)
                },
            }
        },
        TurnOutcome::Event(TurnEvent::OsCall { function_name, args, kwargs, call_id, not_handled_error }) => {
            match call_object("osCall", function_name, args, kwargs, call_id) {
                Err(message) => Err(message),
                Ok(fields) => {
                    let mut fields: Vec<(String, JsField)> = fields;
                    if let Some(exc) = not_handled_error {
                        push_field(&mut fields, "notHandledError", JsField::Exception(exc));
                    }
                    Ok(fields)
                },
            }
        },
        TurnOutcome::Event(TurnEvent::NameLookup { name }) => Ok(
            fields2(text_field("kind", "nameLookup"), text_field("name", name.as_str())),
        ),
        TurnOutcome::Event(TurnEvent::ResolveFutures { pending_call_ids }) => Ok(
            fields2(
                text_field("kind", "resolveFutures"),
                ("pendingCallIds".to_owned(), JsField::Ids(pending_call_ids)),
            ),
        ),
        TurnOutcome::Runtime(exc) => Ok(
            fields2(text_field("kind", "error"), ("exception".to_owned(), JsField::Exception(exc))),
        ),
        TurnOutcome::Typing(diagnostics) => Ok(
            fields2(text_field("kind", "typingError"), text_field("diagnostics", diagnostics.as_str())),
        ),
        TurnOutcome::Crashed { message, timed_out, exit_status } => {
            let mut fields: Vec<(String, JsField)> = fields2(
                text_field("kind", "crashed"),
                text_field("message", message.as_str()),
            );
            push_field(&mut fields, "timedOut", JsField::Flag(timed_out));
            proof {
                assert(object_view(fields@) =~= seq![
                    kind_field("crashed"@),
                    ("message"@, JsFieldView::Text(message@)),
                    ("timedOut"@, JsFieldView::Other(JsField::Flag(timed_out))),
                ]);
            }
            if let Some(status) = exit_status {
                push_field(&mut fields, "exitStatus", JsField::Text(status));
            }
            Ok(fields)
        },
        TurnOutcome::Protocol(message) => Ok(
            fields2(text_field("kind", "protocol"), text_field("message", message.as_str())),
        ),
        TurnOutcome::LoadedIdle => Ok(fields1(text_field("kind", "loaded"))),
        TurnOutcome::Done => Ok(fields1(text_field("kind", "ok"))),
    }
}

/// Every turn object says first what it is.
pub proof fn law_turn_objects_start_with_their_kind(outcome: TurnOutcome)
    ensures
        turn_fields(outcome).len() > 0,
        turn_fields(outcome)[0].0 == "kind"@,
        turn_fields(outcome)[0].1 is Text,
{
}

/// The keys of turn objects.
pub open spec fn is_turn_key(key: Seq<char>) -> bool {
    key == "kind"@ || key == "value"@ || key == "functionName"@ || key == "args"@ || key == "kwargs"@ || key
        == "callId"@ || key == "methodCall"@ || key == "notHandledError"@ || key == "name"@ || key
        == "pendingCallIds"@ || key == "exception"@ || key == "diagnostics"@ || key == "message"@ || key
        == "timedOut"@ || key == "exitStatus"@
}

/// Sandboxed code never chooses a key: whatever happened, the keys of a turn
/// object are from a fixed list.
pub proof fn law_turn_keys_are_fixed(outcome: TurnOutcome, i: int)
    requires
        0 <= i < turn_fields(outcome).len(),
    ensures
        is_turn_key(turn_fields(outcome)[i].0),
{
}

/// Properties of a stack frame.
pub open spec fn frame_fields(frame: StackFrame, preview: Option<Seq<char>>) -> Seq<(Seq<char>, JsFieldView)> {
    let place = seq![
        ("filename"@, JsFieldView::Text(frame.filename@)),
        ("line"@, JsFieldView::Other(JsField::Number(frame.start.line))),
        ("column"@, JsFieldView::Other(JsField::Number(frame.start.column))),
        ("endLine"@, JsFieldView::Other(JsField::Number(frame.end.line))),
        ("endColumn"@, JsFieldView::Other(JsField::Number(frame.end.column))),
    ];
    let named = match frame.frame_name {
        Some(name) => place.push(("frameName"@, JsFieldView::Text(name@))),
        None => place,
    };
    let previewed = match preview {
        Some(line) => named.push(("previewLine"@, JsFieldView::Text(line))),
        None => named,
    };
    previewed.push(("hideCaret"@, JsFieldView::Other(JsField::Flag(frame.hide_caret)))).push(
        ("hideFrameName"@, JsFieldView::Other(JsField::Flag(frame.hide_frame_name))),
    )
}

/// Converts the frame at `index` into the properties of a frame object.
pub fn frame_to_js(traceback: &Traceback, index: usize) -> (r: Vec<(String, JsField)>)
    requires
        traceback.wf(),
        index < traceback.frames@.len(),
    ensures
        object_view(r@) == frame_fields(traceback.frames@[index as int], traceback.preview(index as int)),
{
    let frame: &StackFrame = &traceback.frames[index];
    let mut fields: Vec<(String, JsField)> = fields2(
        text_field("filename", frame.filename.as_str()),
        ("line".to_owned(), JsField::Number(frame.start.line)),
    );
    push_field(&mut fields, "column", JsField::Number(frame.start.column));
    push_field(&mut fields, "endLine", JsField::Number(frame.end.line));
    push_field(&mut fields, "endColumn", JsField::Number(frame.end.column));
    proof {
        assert(object_view(fields@) =~= seq![
            ("filename"@, JsFieldView::Text(frame.filename@)),
            ("line"@, JsFieldView::Other(JsField::Number(frame.start.line))),
            ("column"@, JsFieldView::Other(JsField::Number(frame.start.column))),
            ("endLine"@, JsFieldView::Other(JsField::Number(frame.end.line))),
            ("endColumn"@, JsFieldView::Other(JsField::Number(frame.end.column))),
        ]);
    }
    if let Some(name) = &frame.frame_name {
        push_field(&mut fields, "frameName", JsField::Text(name.clone()));
    }
    if let Some(k) = frame.preview_line {
        push_field(&mut fields, "previewLine", JsField::Text(traceback.previews[k].clone()));
    }
    push_field(&mut fields, "hideCaret", JsField::Flag(frame.hide_caret));
    push_field(&mut fields, "hideFrameName", JsField::Flag(frame.hide_frame_name));
    fields
}

/// A JavaScript value on its way into the sandbox.
pub enum JsValue {
    Converted(Outgoing),
    /// The value has no counterpart, for the reason given.
    Unconvertible(String),
}

/// Converts an external call's return value into a resume. Values that cannot
/// cross become an exception in the sandbox: the worker waits for exactly one
/// answer, so this never fails.
pub fn sendable_resume(value: JsValue) -> (r: ResumeValue)
    ensures
        resumes_with(value, r),
{
    match value {
        JsValue::Converted(outgoing) => {
            if outgoing.too_deep {
                ResumeValue::Error(exception(ExcType::RuntimeError, "Max input depth exceeded".to_owned()))
            } else {
                ResumeValue::Return(outgoing)
            }
        },
        JsValue::Unconvertible(reason) => ResumeValue::Error(exception(ExcType::TypeError, reason)),
    }
}

fn exception(exc_type: ExcType, message: String) -> (r: RaisedException)
    ensures
        r.says(exc_type, message@),
{
    RaisedException::new(exc_type, message)
}

/// Whether an exception has the type of this name, or is a `RuntimeError`
/// where no type has it.
pub open spec fn names_type(exc: RaisedException, name: Seq<char>) -> bool {
    if exists|t: ExcType| (#[trigger] t.name()) == name {
        exc.exc_type@ == name
    } else {
        exc.exc_type@ == ExcType::RuntimeError.name()
    }
}

/// Builds an exception from a Python type name; anything unknown is a
/// `RuntimeError`.
pub fn exception_from_parts(exc_type: &str, message: String) -> (r: RaisedException)
    ensures
        r.message is Some,
        r.message->Some_0@ == message@,
        r.traceback.frames@.len() == 0,
        names_type(r, exc_type@),
{
    let t: ExcType = match ExcType::parse(exc_type) {
        Some(t) => t,
        None => ExcType::RuntimeError,
    };
    exception(t, message)
}

/// The exception that the sandbox raises when the host declines the pending OS
/// call. It is kept here so that all of it, traceback included, goes back.
pub struct PendingNotHandled {
    exc: Option<RaisedException>,
}

impl View for PendingNotHandled {
    type V = Option<RaisedException>;

    closed spec fn view(&self) -> Option<RaisedException> {
        self.exc
    }
}

/// Whether `after` is what is kept once a turn ended: an OS call puts its own
/// exception in place, if it has one, and other turns change nothing.
pub open spec fn keeps_pending(
    before: Option<RaisedException>,
    outcome: TurnOutcome,
    after: Option<RaisedException>,
) -> bool {
    match outcome {
        TurnOutcome::Event(TurnEvent::OsCall { not_handled_error, .. }) => match not_handled_error {
            Some(exc) => after is Some && after->Some_0.same(exc),
            None => after is None,
        },
        _ => after == before,
    }
}

impl PendingNotHandled {
    /// Nothing is pending.
    pub fn new() -> (r: PendingNotHandled)
        ensures
            r@ is None,
    {
        PendingNotHandled { exc: None }
    }

    /// Notes the outcome of a turn.
    pub fn note(&mut self, outcome: &TurnOutcome)
        ensures
            keeps_pending(old(self)@, *outcome, final(self)@),
    {
        if let TurnOutcome::Event(TurnEvent::OsCall { not_handled_error, .. }) = outcome {
            self.exc = match not_handled_error {
                Some(exc) => Some(exc.duplicate()),
                None => None,
            };
        }
    }

    /// Declines the pending OS call: its exception, or a general one, is the
    /// answer, and nothing is pending any more.
    pub fn resume_not_handled(&mut self) -> (r: ResumeValue)
        ensures
            final(self)@ is None,
            r is Error,
            match old(self)@ {
                Some(exc) => r->Error_0 == exc,
                None => r->Error_0.says(ExcType::RuntimeError, "OS call is not supported"@),
            },
    {
        let mut taken: Option<RaisedException> = None;
        core::mem::swap(&mut self.exc, &mut taken);
        match taken {
            Some(exc) => ResumeValue::Error(exc),
            None => ResumeValue::Error(exception(ExcType::RuntimeError, "OS call is not supported".to_owned())),
        }
    }
}

/// Declining an OS call raises the exception that came with it, whatever other
/// turns lie in between.
pub proof fn law_declined_calls_raise_their_exception(
    call: TurnOutcome,
    between: TurnOutcome,
    before: Option<RaisedException>,
    noted: Option<RaisedException>,
    kept: Option<RaisedException>,
    exc: RaisedException,
)
    requires
        call matches TurnOutcome::Event(TurnEvent::OsCall { not_handled_error, .. }) && not_handled_error == Some(exc),
        !(between matches TurnOutcome::Event(TurnEvent::OsCall { .. })),
        keeps_pending(before, call, noted),
        keeps_pending(noted, between, kept),
    ensures
        kept is Some,
        kept->Some_0.same(exc),
{
}

/// The outcome of a turn on a session that has no worker any more.
pub fn closed_outcome() -> (r: TurnOutcome)
    ensures
        r is Protocol,
        r->Protocol_0@ == "the session is closed — check out a new one"@,
{
    TurnOutcome::Protocol("the session is closed — check out a new one".to_owned())
}

/// What a name lookup resolves to: a value takes precedence over a function,
/// and with neither the name is undefined.
pub fn resolve_lookup(function_name: Option<String>, value: Option<Outgoing>) -> (r: Result<Option<Outgoing>, String>)
    ensures
        match value {
            Some(outgoing) => if outgoing.too_deep {
                r is Err && r->Err_0@ == "Max input depth exceeded"@
            } else {
                r == Ok::<Option<Outgoing>, String>(Some(outgoing))
            },
            None => r == Ok::<Option<Outgoing>, String>(
                match function_name {
                    Some(name) => Some(
                        Outgoing { value: MontyObject::Function { name, docstring: None }, too_deep: false },
                    ),
                    None => None,
                },
            ),
        },
{
    match value {
        Some(outgoing) => {
            if outgoing.too_deep {
                Err("Max input depth exceeded".to_owned())
            } else {
                Ok(Some(outgoing))
            }
        },
        None => match function_name {
            Some(name) => Ok(
                Some(Outgoing { value: MontyObject::Function { name, docstring: None }, too_deep: false }),
            ),
            None => Ok(None),
        },
    }
}

/// The inputs of a feed: an absent value is `None`.
pub open spec fn js_inputs(inputs: Seq<(String, Option<Outgoing>)>) -> Seq<(String, Outgoing)> {
    inputs.map_values(
        |i: (String, Option<Outgoing>)|
            match i.1 {
                Some(outgoing) => (i.0, outgoing),
                None => (i.0, Outgoing { value: MontyObject::NoneValue, too_deep: false }),
            },
    )
}

/// Converts the inputs of a feed, rejecting values the wire cannot carry.
pub fn convert_inputs(inputs: Vec<(String, Option<Outgoing>)>) -> (r: Result<Vec<(String, Outgoing)>, String>)
    ensures
        r is Ok <==> forall|i: int|
            0 <= i < inputs@.len() ==> !((#[trigger] inputs@[i]).1 is Some && inputs@[i].1->Some_0.too_deep),
        r is Ok ==> r->Ok_0@ == js_inputs(inputs@),
        r is Ok ==> r->Ok_0@.len() == inputs@.len() && forall|i: int|
            0 <= i < inputs@.len() ==> (#[trigger] r->Ok_0@[i]).0 == inputs@[i].0 && match inputs@[i].1 {
                Some(outgoing) => r->Ok_0@[i].1 == outgoing,
                None => r->Ok_0@[i].1.value is NoneValue && !r->Ok_0@[i].1.too_deep,
            },
        r is Err ==> r->Err_0@ == "Max input depth exceeded"@,
{
    let ghost all = inputs@;
    let mut out: Vec<(String, Outgoing)> = Vec::new();
    proof {
        assert(out@ =~= js_inputs(all.take(0)));
    }
    for input in it: inputs
        invariant
            it.seq() == all,
            out@ == js_inputs(all.take(it.index() as int)),
            forall|j: int|
                0 <= j < it.index() ==> !((#[trigger] all[j]).1 is Some && all[j].1->Some_0.too_deep),
    {
        let ghost k = it.index() as int;
        proof {
            assert(js_inputs(all.take(k + 1)) =~= js_inputs(all.take(k)).push(js_inputs(all)[k]));
        }
        let (name, value) = input;
        match value {
            Some(outgoing) => {
                if outgoing.too_deep {
                    return Err("Max input depth exceeded".to_owned());
                }
                out.push((name, outgoing));
            },
            None => out.push((name, Outgoing { value: MontyObject::NoneValue, too_deep: false })),
        }
    }
    proof {
        assert(all.take(all.len() as int) =~= all);
    }
    Ok(out)
}

/// The outcome of a settled promise, as far as it says anything.
pub struct JsFuture {
    pub call_id: Option<u32>,
    pub ok: Option<bool>,
    pub value: Option<JsValue>,
    pub exc_type: Option<String>,
    pub message: Option<String>,
}

/// The field that is missing from the outcome of a promise.
pub open spec fn missing_field(f: JsFuture) -> Option<Seq<char>> {
    if f.call_id is None {
        Some("callId"@)
    } else if f.ok is None {
        Some("ok"@)
    } else if f.ok == Some(false) && f.exc_type is None {
        Some("excType"@)
    } else if f.ok == Some(false) && f.message is None {
        Some("message"@)
    } else {
        None
    }
}

fn missing(field: &str) -> (r: String)
    ensures
        r@ == "missing required field "@ + field@,
{
    cat2("missing required field ", field)
}

/// Whether `r` is the resume value for a JavaScript value.
pub open spec fn resumes_with(value: JsValue, r: ResumeValue) -> bool {
    match value {
        JsValue::Converted(outgoing) => if outgoing.too_deep {
            r is Error && r->Error_0.says(ExcType::RuntimeError, "Max input depth exceeded"@)
        } else {
            r == ResumeValue::Return(outgoing)
        },
        JsValue::Unconvertible(reason) => r is Error && r->Error_0.says(ExcType::TypeError, reason@),
    }
}

/// Converts the outcome of a promise into the answer for its call.
pub fn future_answer(f: JsFuture) -> (r: Result<(u32, ResumeValue), String>)
    ensures
        match missing_field(f) {
            Some(field) => r is Err && r->Err_0@ == "missing required field "@ + field,
            None => {
                &&& r is Ok
                &&& r->Ok_0.0 == f.call_id->Some_0
                &&& f.ok == Some(true) ==> match f.value {
                    Some(value) => resumes_with(value, r->Ok_0.1),
                    None => r->Ok_0.1 == ResumeValue::Return(
                        Outgoing { value: MontyObject::NoneValue, too_deep: false },
                    ),
                }
                &&& f.ok == Some(false) ==> {
                    &&& r->Ok_0.1 is Error
                    &&& r->Ok_0.1->Error_0.message is Some
                    &&& r->Ok_0.1->Error_0.message->Some_0@ == f.message->Some_0@
                    &&& names_type(r->Ok_0.1->Error_0, f.exc_type->Some_0@)
                }
            },
        },
{
    let call_id: u32 = match f.call_id {
        Some(id) => id,
        None => return Err(missing("callId")),
    };
    let ok: bool = match f.ok {
        Some(ok) => ok,
        None => return Err(missing("ok")),
    };
    if ok {
        return match f.value {
            Some(value) => Ok((call_id, sendable_resume(value))),
            None => Ok((call_id, ResumeValue::Return(Outgoing { value: MontyObject::NoneValue, too_deep: false }))),
        };
    }
    let exc_type: String = match f.exc_type {
        Some(exc_type) => exc_type,
        None => return Err(missing("excType")),
    };
    match f.message {
        Some(message) => Ok((call_id, ResumeValue::Error(exception_from_parts(exc_type.as_str(), message)))),
        None => Err(missing("message")),
    }
}

/// The properties of an exception besides its frames; `rendered` is its
/// traceback in words.
pub open spec fn exception_fields(exc: RaisedException, rendered: Seq<char>) -> Seq<(Seq<char>, JsFieldView)> {
    seq![
        ("excType"@, JsFieldView::Text(exc.exc_type@)),
        (
            "message"@,
            JsFieldView::Text(
                match exc.message {
                    Some(m) => m@,
                    None => Seq::empty(),
                },
            ),
        ),
        ("traceback"@, JsFieldView::Text(rendered)),
    ]
}

/// An exception object: its properties in order, and behind them the objects
/// of its `frames`.
#[derive(Debug)]
pub struct JsException {
    pub fields: Vec<(String, JsField)>,
    pub frames: Vec<Vec<(String, JsField)>>,
}

/// The object of the frame at `i` of a traceback.
pub open spec fn frame_object(traceback: Traceback, i: int) -> Seq<(Seq<char>, JsFieldView)> {
    frame_fields(traceback.frames@[i], traceback.preview(i))
}

/// Whether `frames` are the objects of the frames of a traceback, one for each
/// in order.
pub open spec fn are_frames_of(frames: Seq<Vec<(String, JsField)>>, traceback: Traceback) -> bool {
    &&& frames.len() == traceback.frames@.len()
    &&& forall|i: int| 0 <= i < frames.len() ==> object_view((#[trigger] frames[i])@) == frame_object(traceback, i)
}

/// The objects of the frames of a traceback.
pub fn frames_to_js(traceback: &Traceback) -> (r: Vec<Vec<(String, JsField)>>)
    requires
        traceback.wf(),
    ensures
        are_frames_of(r@, *traceback),
{
    let mut frames: Vec<Vec<(String, JsField)>> = Vec::new();
    let mut i: usize = 0;
    while i < traceback.frames.len()
        invariant
            traceback.wf(),
            i <= traceback.frames@.len(),
            frames@.len() == i,
            forall|j: int| 0 <= j < i ==> object_view((#[trigger] frames@[j])@) == frame_object(*traceback, j),
        decreases traceback.frames@.len() - i,
    {
        frames.push(frame_to_js(traceback, i));
        i = i + 1;
    }
    frames
}

/// Converts an exception into an exception object; `rendered` is its traceback
/// in words.
pub fn exception_to_js(exc: &RaisedException, rendered: &str) -> (r: Result<JsException, String>)
    requires
        exc.traceback.wf(),
    ensures
        r is Ok <==> fits_array(exc.traceback.frames@.len()),
        r is Ok ==> object_view(r->Ok_0.fields@) == exception_fields(*exc, rendered@),
        r is Ok ==> are_frames_of(r->Ok_0.frames@, exc.traceback),
        r is Err ==> r->Err_0@ == "traceback too deep"@,
{
    if exc.traceback.frames.len() > 0xffff_ffff {
        return Err("traceback too deep".to_owned());
    }
    let message: String = match &exc.message {
        Some(m) => m.clone(),
        None => String::new(),
    };
    let mut fields: Vec<(String, JsField)> = fields2(
        text_field("excType", exc.exc_type.as_str()),
        text_field("message", message.as_str()),
    );
    push_field(&mut fields, "traceback", JsField::Text(rendered.to_owned()));
    proof {
        assert(object_view(fields@) =~= exception_fields(*exc, rendered@));
    }
    Ok(JsException { fields, frames: frames_to_js(&exc.traceback) })
}

// ---------------------------------------------------------------------------
// Laws
// ---------------------------------------------------------------------------

/// Whether an object holds a property with this text.
pub open spec fn holds_text(fields: Seq<(Seq<char>, JsFieldView)>, key: Seq<char>, text: Seq<char>) -> bool {
    exists|i: int| 0 <= i < fields.len() && #[trigger] fields[i] == (key, JsFieldView::Text(text))
}

/// Whether an object holds a property with this value.
pub open spec fn holds(fields: Seq<(Seq<char>, JsFieldView)>, key: Seq<char>, value: JsField) -> bool {
    exists|i: int| 0 <= i < fields.len() && #[trigger] fields[i] == (key, JsFieldView::Other(value))
}

/// A turn object holds what the turn came to, each part under its own key and
/// as it was, and nothing else.
pub proof fn law_turn_objects_hold_what_happened(outcome: TurnOutcome)
    ensures
        ({
            let fields = turn_fields(outcome);
            match outcome {
                TurnOutcome::Event(TurnEvent::Complete(value)) => {
                    &&& fields.len() == 2
                    &&& holds_text(fields, "kind"@, "complete"@)
                    &&& holds(fields, "value"@, JsField::Value(value))
                },
                TurnOutcome::Event(TurnEvent::FunctionCall { function_name, args, kwargs, call_id, method_call }) => {
                    &&& fields.len() == 6
                    &&& holds_text(fields, "kind"@, "functionCall"@)
                    &&& holds_text(fields, "functionName"@, function_name@)
                    &&& holds(fields, "args"@, JsField::Values(args))
                    &&& holds(fields, "kwargs"@, JsField::Pairs(kwargs))
                    &&& holds(fields, "callId"@, JsField::Number(call_id))
                    &&& holds(fields, "methodCall"@, JsField::Flag(method_call))
                },
                TurnOutcome::Event(TurnEvent::OsCall { function_name, args, kwargs, call_id, not_handled_error }) => {
                    &&& fields.len() == if not_handled_error is Some { 6nat } else { 5nat }
                    &&& holds_text(fields, "kind"@, "osCall"@)
                    &&& holds_text(fields, "functionName"@, function_name@)
                    &&& holds(fields, "args"@, JsField::Values(args))
                    &&& holds(fields, "kwargs"@, JsField::Pairs(kwargs))
                    &&& holds(fields, "callId"@, JsField::Number(call_id))
                    &&& not_handled_error is Some ==> holds(
                        fields,
                        "notHandledError"@,
                        JsField::Exception(not_handled_error->Some_0),
                    )
                },
                TurnOutcome::Event(TurnEvent::NameLookup { name }) => {
                    &&& fields.len() == 2
                    &&& holds_text(fields, "kind"@, "nameLookup"@)
                    &&& holds_text(fields, "name"@, name@)
                },
                TurnOutcome::Event(TurnEvent::ResolveFutures { pending_call_ids }) => {
                    &&& fields.len() == 2
                    &&& holds_text(fields, "kind"@, "resolveFutures"@)
                    &&& holds(fields, "pendingCallIds"@, JsField::Ids(pending_call_ids))
                },
                TurnOutcome::Runtime(exc) => {
                    &&& fields.len() == 2
                    &&& holds_text(fields, "kind"@, "error"@)
                    &&& holds(fields, "exception"@, JsField::Exception(exc))
                },
                TurnOutcome::Typing(diagnostics) => {
                    &&& fields.len() == 2
                    &&& holds_text(fields, "kind"@, "typingError"@)
                    &&& holds_text(fields, "diagnostics"@, diagnostics@)
                },
                TurnOutcome::Crashed { message, timed_out, exit_status } => {
                    &&& fields.len() == if exit_status is Some { 4nat } else { 3nat }
                    &&& holds_text(fields, "kind"@, "crashed"@)
                    &&& holds_text(fields, "message"@, message@)
                    &&& holds(fields, "timedOut"@, JsField::Flag(timed_out))
                    &&& exit_status is Some ==> holds_text(fields, "exitStatus"@, exit_status->Some_0@)
                },
                TurnOutcome::Protocol(message) => {
                    &&& fields.len() == 2
                    &&& holds_text(fields, "kind"@, "protocol"@)
                    &&& holds_text(fields, "message"@, message@)
                },
                TurnOutcome::LoadedIdle => fields.len() == 1 && holds_text(fields, "kind"@, "loaded"@),
                TurnOutcome::Done => fields.len() == 1 && holds_text(fields, "kind"@, "ok"@),
            }
        }),
{
    let fields = turn_fields(outcome);
    assert(fields[0].0 == "kind"@);
    match outcome {
        TurnOutcome::Event(TurnEvent::Complete(value)) => {
            assert(fields[1] == ("value"@, JsFieldView::Other(JsField::Value(value))));
        },
        TurnOutcome::Event(TurnEvent::NameLookup { name }) => {
            assert(fields[1] == ("name"@, JsFieldView::Text(name@)));
        },
        TurnOutcome::Event(TurnEvent::ResolveFutures { pending_call_ids }) => {
            assert(fields[1] == ("pendingCallIds"@, JsFieldView::Other(JsField::Ids(pending_call_ids))));
        },
        TurnOutcome::Runtime(exc) => {
            assert(fields[1] == ("exception"@, JsFieldView::Other(JsField::Exception(exc))));
        },
        TurnOutcome::Typing(diagnostics) => {
            assert(fields[1] == ("diagnostics"@, JsFieldView::Text(diagnostics@)));
        },
        TurnOutcome::Protocol(message) => {
            assert(fields[1] == ("message"@, JsFieldView::Text(message@)));
        },
        TurnOutcome::Event(TurnEvent::FunctionCall { function_name, args, kwargs, call_id, method_call }) => {
            assert(fields[1] == ("functionName"@, JsFieldView::Text(function_name@)));
            assert(fields[2] == ("args"@, JsFieldView::Other(JsField::Values(args))));
            assert(fields[3] == ("kwargs"@, JsFieldView::Other(JsField::Pairs(kwargs))));
            assert(fields[4] == ("callId"@, JsFieldView::Other(JsField::Number(call_id))));
            assert(fields[5] == ("methodCall"@, JsFieldView::Other(JsField::Flag(method_call))));
        },
        TurnOutcome::Event(TurnEvent::OsCall { function_name, args, kwargs, call_id, not_handled_error }) => {
            assert(fields[1] == ("functionName"@, JsFieldView::Text(function_name@)));
            assert(fields[2] == ("args"@, JsFieldView::Other(JsField::Values(args))));
            assert(fields[3] == ("kwargs"@, JsFieldView::Other(JsField::Pairs(kwargs))));
            assert(fields[4] == ("callId"@, JsFieldView::Other(JsField::Number(call_id))));
            if not_handled_error is Some {
                assert(fields[5] == (
                    "notHandledError"@,
                    JsFieldView::Other(JsField::Exception(not_handled_error->Some_0)),
                ));
            }
        },
        TurnOutcome::Crashed { message, timed_out, exit_status } => {
            assert(fields[1] == ("message"@, JsFieldView::Text(message@)));
            assert(fields[2] == ("timedOut"@, JsFieldView::Other(JsField::Flag(timed_out))));
            if exit_status is Some {
                assert(fields[3] == ("exitStatus"@, JsFieldView::Text(exit_status->Some_0@)));
            }
        },
        _ => {},
    }
}

/// A frame object holds the file, both places, the flags, and the name and the
/// source line where the frame has them.
pub proof fn law_frame_objects_hold_the_frame(frame: StackFrame, preview: Option<Seq<char>>)
    ensures
        ({
            let fields = frame_fields(frame, preview);
            let named = if frame.frame_name is Some { 1nat } else { 0nat };
            let previewed = if preview is Some { 1nat } else { 0nat };
            &&& fields.len() == 7 + named + previewed
            &&& holds_text(fields, "filename"@, frame.filename@)
            &&& holds(fields, "line"@, JsField::Number(frame.start.line))
            &&& holds(fields, "column"@, JsField::Number(frame.start.column))
            &&& holds(fields, "endLine"@, JsField::Number(frame.end.line))
            &&& holds(fields, "endColumn"@, JsField::Number(frame.end.column))
            &&& frame.frame_name is Some ==> holds_text(fields, "frameName"@, frame.frame_name->Some_0@)
            &&& preview is Some ==> holds_text(fields, "previewLine"@, preview->Some_0)
            &&& holds(fields, "hideCaret"@, JsField::Flag(frame.hide_caret))
            &&& holds(fields, "hideFrameName"@, JsField::Flag(frame.hide_frame_name))
        }),
{
    let fields = frame_fields(frame, preview);
    let named: int = if frame.frame_name is Some { 1 } else { 0 };
    let previewed: int = if preview is Some { 1 } else { 0 };
    assert(fields[0] == ("filename"@, JsFieldView::Text(frame.filename@)));
    assert(fields[1] == ("line"@, JsFieldView::Other(JsField::Number(frame.start.line))));
    assert(fields[2] == ("column"@, JsFieldView::Other(JsField::Number(frame.start.column))));
    assert(fields[3] == ("endLine"@, JsFieldView::Other(JsField::Number(frame.end.line))));
    assert(fields[4] == ("endColumn"@, JsFieldView::Other(JsField::Number(frame.end.column))));
    if frame.frame_name is Some {
        assert(fields[5] == ("frameName"@, JsFieldView::Text(frame.frame_name->Some_0@)));
    }
    if preview is Some {
        assert(fields[5 + named] == ("previewLine"@, JsFieldView::Text(preview->Some_0)));
    }
    assert(fields[5 + named + previewed] == ("hideCaret"@, JsFieldView::Other(JsField::Flag(frame.hide_caret))));
    assert(fields[6 + named + previewed] == (
        "hideFrameName"@,
        JsFieldView::Other(JsField::Flag(frame.hide_frame_name)),
    ));
}

/// An exception object holds the type, the message, empty where there is none,
/// and the rendered traceback, with one frame object for each frame in order.
pub proof fn law_exception_objects_hold_the_exception(
    exc: RaisedException,
    rendered: Seq<char>,
    frames: Seq<Vec<(String, JsField)>>,
    i: int,
)
    requires
        are_frames_of(frames, exc.traceback),
        0 <= i < exc.traceback.frames@.len(),
    ensures
        ({
            let fields = exception_fields(exc, rendered);
            &&& fields.len() == 3
            &&& holds_text(fields, "excType"@, exc.exc_type@)
            &&& exc.message is Some ==> holds_text(fields, "message"@, exc.message->Some_0@)
            &&& exc.message is None ==> holds_text(fields, "message"@, Seq::empty())
            &&& holds_text(fields, "traceback"@, rendered)
        }),
        frames.len() == exc.traceback.frames@.len(),
        holds_text(object_view(frames[i]@), "filename"@, exc.traceback.frames@[i].filename@),
        holds(object_view(frames[i]@), "line"@, JsField::Number(exc.traceback.frames@[i].start.line)),
        holds(object_view(frames[i]@), "column"@, JsField::Number(exc.traceback.frames@[i].start.column)),
{
    let fields = exception_fields(exc, rendered);
    assert(fields[0] == ("excType"@, JsFieldView::Text(exc.exc_type@)));
    assert(fields[1].0 == "message"@);
    assert(fields[2] == ("traceback"@, JsFieldView::Text(rendered)));
    assert(object_view(frames[i]@) == frame_object(exc.traceback, i));
    law_frame_objects_hold_the_frame(exc.traceback.frames@[i], exc.traceback.preview(i));
}

/// The inputs of a feed are as many as were given, in the same order, each
/// under its own name; a value goes out as it is, and an absent one as `None`.
pub proof fn law_inputs_keep_their_names_and_values(inputs: Seq<(String, Option<Outgoing>)>, i: int)
    requires
        0 <= i < inputs.len(),
    ensures
        js_inputs(inputs).len() == inputs.len(),
        js_inputs(inputs)[i].0 == inputs[i].0,
        inputs[i].1 is Some ==> js_inputs(inputs)[i].1 == inputs[i].1->Some_0,
        inputs[i].1 is None ==> js_inputs(inputs)[i].1.value is NoneValue && !js_inputs(inputs)[i].1.too_deep,
{
}

/// What a turn comes to for the caller: its event as it is, or its failure,
/// which ends the session exactly where sandboxed code is not to blame.
pub proof fn law_outcomes_tell_failures_apart(result: Result<TurnEvent, PoolError>, message: String, r: TurnOutcome)
    requires
        is_outcome(result, message, r),
    ensures
        result is Ok <==> r is Event,
        result is Ok ==> r->Event_0 == result->Ok_0,
        r is Runtime <==> result is Err && result->Err_0 is Runtime,
        r is Runtime ==> r->Runtime_0 == result->Err_0->Runtime_0,
        r is Typing <==> result is Err && result->Err_0 is Typing,
        r is Typing ==> r->Typing_0 == result->Err_0->Typing_0,
        r is Crashed <==> result is Err && (result->Err_0 is Timeout || result->Err_0 is Crashed),
        r is Crashed ==> (r->timed_out <==> result->Err_0 is Timeout),
        r is Crashed ==> (r->exit_status is Some <==> result->Err_0 is Crashed && result->Err_0->status is Some),
        r is Crashed && r->exit_status is Some ==> r->exit_status->Some_0 == result->Err_0->status->Some_0.text,
        r is Protocol ==> r->Protocol_0 == message,
{
}

/// A value that can cross is returned as it is; one that cannot is answered with
/// an exception, so that there always is an answer.
pub proof fn law_values_that_cannot_cross_raise(value: JsValue, r: ResumeValue)
    requires
        resumes_with(value, r),
    ensures
        r is Return || r is Error,
        r is Return <==> value is Converted && !value->Converted_0.too_deep,
        r is Return ==> r->Return_0 == value->Converted_0,
        value is Unconvertible ==> r->Error_0.exc_type@ == "TypeError"@ && r->Error_0.message is Some
            && r->Error_0.message->Some_0@ == value->Unconvertible_0@,
        value is Converted && value->Converted_0.too_deep ==> r->Error_0.exc_type@ == "RuntimeError"@,
{
}

/// The outcome of a promise is complete exactly where it has its call, says
/// whether it succeeded, and names its exception where it did not.
pub proof fn law_promises_need_their_fields(f: JsFuture)
    ensures
        missing_field(f) is None <==> f.call_id is Some && f.ok is Some && (f.ok == Some(false) ==> f.exc_type is Some
            && f.message is Some),
{
}

/// Arguments fit an object exactly where there are at most 2^32 - 1 of either
/// kind; else the one that does not is named.
pub proof fn law_arguments_must_fit_arrays(args: nat, kwargs: nat)
    ensures
        arguments_error(args, kwargs) is None <==> args <= 0xffff_ffff && kwargs <= 0xffff_ffff,
        args > 0xffff_ffff ==> arguments_error(args, kwargs) == Some("too many arguments"@),
        args <= 0xffff_ffff && kwargs > 0xffff_ffff ==> arguments_error(args, kwargs) == Some("too many kwargs"@),
{
}

/// Only calls can fail to be objects, and only for their arguments.
pub proof fn law_only_calls_can_be_too_large(outcome: TurnOutcome)
    ensures
        turn_error(outcome) is Some ==> outcome is Event && (outcome->Event_0 is FunctionCall || outcome->Event_0 is OsCall),
        outcome is Event && outcome->Event_0 is FunctionCall ==> turn_error(outcome) == arguments_error(
            outcome->Event_0->FunctionCall_args@.len(),
            outcome->Event_0->FunctionCall_kwargs@.len(),
        ),
        outcome is Event && outcome->Event_0 is OsCall ==> turn_error(outcome) == arguments_error(
            outcome->Event_0->OsCall_args@.len(),
            outcome->Event_0->OsCall_kwargs@.len(),
        ),
{
}

/// An exception from the host has the type of its name, and is a
/// `RuntimeError` where no type has that name.
pub proof fn law_host_exceptions_have_their_type(exc: RaisedException, t: ExcType, name: Seq<char>)
    requires
        names_type(exc, name),
    ensures
        t.name() == name ==> exc.exc_type@ == name,
        (forall|u: ExcType| (#[trigger] u.name()) != name) ==> exc.exc_type@ == "RuntimeError"@,
{
}

/// A turn that is no OS call leaves the pending exception, and an OS call puts
/// its own in place.
pub proof fn law_pending_exceptions_follow_os_calls(
    before: Option<RaisedException>,
    outcome: TurnOutcome,
    after: Option<RaisedException>,
)
    requires
        keeps_pending(before, outcome, after),
    ensures
        !(outcome is Event && outcome->Event_0 is OsCall) ==> after == before,
        outcome is Event && outcome->Event_0 is OsCall ==> (after is Some
            <==> outcome->Event_0->not_handled_error is Some),
        outcome is Event && outcome->Event_0 is OsCall && after is Some ==> after->Some_0.same(
            outcome->Event_0->not_handled_error->Some_0,
        ),
{
}

/// The properties of an object are its keys and values, each in its place.
pub proof fn law_objects_hold_their_properties(fields: Seq<(String, JsField)>, i: int)
    requires
        0 <= i < fields.len(),
    ensures
        object_view(fields).len() == fields.len(),
        object_view(fields)[i].0 == fields[i].0@,
        fields[i].1 is Text ==> object_view(fields)[i].1 == JsFieldView::Text(fields[i].1->Text_0@),
        !(fields[i].1 is Text) ==> object_view(fields)[i].1 == JsFieldView::Other(fields[i].1),
{
}

} // verus!
