//! Exceptions as Python callers see them.

use crate::checkout::PoolError;
use crate::exc::{classify, plan_raise, py_err_to_exc_type, raise_plan, ExcType, RaisePlan};
use crate::proto::{MontyObject, RaisedException, StackFrame, Traceback, UnicodeErrorData};
use crate::text::{cat3, cat5, decimal, decimal_of, is_prefix, same};
use ahash::{AHashMap, RandomState};
use vstd::prelude::*;
use vstd::string::*;

verus! {

/// Base class of sandbox errors: the exception, traceback included.
pub struct MontyError {
    pub exc: RaisedException,
}

/// A type-check failure with its rendered diagnostics.
pub struct MontyTypingError {
    pub rendered: String,
}

/// A syntax error in a snippet.
pub struct MontySyntaxError {
    pub base: MontyError,
}

/// An exception raised by a snippet.
pub struct MontyRuntimeError {
    pub base: MontyError,
}

/// The death of a worker.
pub struct MontyCrashedError {
    pub base: MontyError,
    pub timed_out: bool,
    pub exit_status: Option<i32>,
}

/// The error class that a sandbox exception is raised as.
pub enum SandboxError {
    Syntax(MontySyntaxError),
    Runtime(MontyRuntimeError),
}

/// The text of an optional message.
pub open spec fn message_text(message: Option<String>) -> Seq<char> {
    match message {
        Some(m) => m@,
        None => Seq::empty(),
    }
}

fn message_or_empty(message: &Option<String>) -> (r: String)
    ensures
        r@ == message_text(*message),
{
    match message {
        Some(m) => m.clone(),
        None => String::new(),
    }
}

impl MontyError {
    /// An error that wraps an exception.
    #[must_use]
    pub fn new(exc: RaisedException) -> (r: MontyError)
        ensures
            r == (MontyError { exc }),
    {
        MontyError { exc }
    }

    /// Raises a sandbox exception: syntax errors have a class of their own. The
    /// whole exception is kept, traceback frames included.
    #[must_use]
    pub fn new_err(exc: RaisedException) -> (r: SandboxError)
        ensures
            r == if exc.exc_type@ == ExcType::SyntaxError.name() {
                SandboxError::Syntax(MontySyntaxError { base: MontyError { exc } })
            } else {
                SandboxError::Runtime(MontyRuntimeError { base: MontyError { exc } })
            },
    {
        let syntax: bool = same(exc.exc_type.as_str(), ExcType::SyntaxError.to_text().as_str());
        let base: MontyError = MontyError::new(exc);
        if syntax {
            SandboxError::Syntax(MontySyntaxError { base })
        } else {
            SandboxError::Runtime(MontyRuntimeError { base })
        }
    }

    /// The message.
    pub fn str_text(&self) -> (r: String)
        ensures
            r@ == message_text(self.exc.message),
    {
        message_or_empty(&self.exc.message)
    }

    /// The type and message.
    pub fn repr_text(&self) -> (r: String)
        ensures
            r@ == match self.exc.message {
                Some(m) => "MontyError("@ + self.exc.exc_type@ + ": "@ + m@ + ")"@,
                None => "MontyError("@ + self.exc.exc_type@ + ")"@,
            },
    {
        match &self.exc.message {
            Some(m) => cat5("MontyError(", self.exc.exc_type.as_str(), ": ", m.as_str(), ")"),
            None => cat3("MontyError(", self.exc.exc_type.as_str(), ")"),
        }
    }
}

impl MontyTypingError {
    /// A type-check failure.
    #[must_use]
    pub fn new_err(rendered: String) -> (r: MontyTypingError)
        ensures
            r.rendered == rendered,
    {
        MontyTypingError { rendered }
    }

    /// The diagnostics.
    pub fn str_text(&self) -> (r: String)
        ensures
            r@ == self.rendered@,
    {
        self.rendered.clone()
    }

    /// The diagnostics by name.
    pub fn repr_text(&self) -> (r: String)
        ensures
            r@ == "MontyTypingError("@ + self.rendered@ + ")"@,
    {
        cat3("MontyTypingError(", self.rendered.as_str(), ")")
    }
}

impl MontySyntaxError {
    /// The message.
    pub fn str_text(&self) -> (r: String)
        ensures
            r@ == message_text(self.base.exc.message),
    {
        self.base.str_text()
    }

    /// The message by name.
    pub fn repr_text(&self) -> (r: String)
        ensures
            r@ == "MontySyntaxError("@ + message_text(self.base.exc.message) + ")"@,
    {
        cat3("MontySyntaxError(", message_or_empty(&self.base.exc.message).as_str(), ")")
    }
}

/// The type, with the message where it is not empty.
pub open spec fn type_and_message(e: MontyError) -> Seq<char> {
    if message_text(e.exc.message).len() > 0 {
        e.exc.exc_type@ + ": "@ + message_text(e.exc.message)
    } else {
        e.exc.exc_type@
    }
}

impl MontyRuntimeError {
    /// The type, with the message where it is not empty.
    pub fn str_text(&self) -> (r: String)
        ensures
            r@ == type_and_message(self.base),
    {
        let name: String = self.base.exc.exc_type.clone();
        let message: String = message_or_empty(&self.base.exc.message);
        if message.as_str().is_empty() {
            name
        } else {
            cat3(name.as_str(), ": ", message.as_str())
        }
    }

    /// The type and message by name.
    pub fn repr_text(&self) -> (r: String)
        ensures
            r@ == "MontyRuntimeError("@ + type_and_message(self.base) + ")"@,
    {
        cat3("MontyRuntimeError(", self.str_text().as_str(), ")")
    }
}

impl MontyCrashedError {
    /// The death of a worker in these words.
    pub open spec fn is_crash(self, message: Seq<char>, timed_out: bool, exit_status: Option<i32>) -> bool {
        &&& self.base.exc.says(ExcType::RuntimeError, message)
        &&& self.timed_out == timed_out
        &&& self.exit_status == exit_status
    }

    /// A dead worker.
    #[must_use]
    pub fn new_err(message: String, timed_out: bool, exit_status: Option<i32>) -> (r: MontyCrashedError)
        ensures
            r.is_crash(message@, timed_out, exit_status),
    {
        MontyCrashedError {
            base: MontyError::new(RaisedException::new(ExcType::RuntimeError, message)),
            timed_out,
            exit_status,
        }
    }

    /// The message by name.
    pub fn repr_text(&self) -> (r: String)
        ensures
            r@ == "MontyCrashedError("@ + message_text(self.base.exc.message) + ")"@,
    {
        cat3("MontyCrashedError(", message_or_empty(&self.base.exc.message).as_str(), ")")
    }
}

/// How an error is displayed.
#[derive(Clone, Copy, Debug, PartialEq, Eq, Structural)]
pub enum DisplayFormat {
    Traceback,
    TypeMsg,
    Msg,
}

/// The display format with a name.
pub open spec fn display_format(name: Seq<char>) -> Option<DisplayFormat> {
    if name == "traceback"@ {
        Some(DisplayFormat::Traceback)
    } else if name == "type-msg"@ {
        Some(DisplayFormat::TypeMsg)
    } else if name == "msg"@ {
        Some(DisplayFormat::Msg)
    } else {
        None
    }
}

/// Parses the name of a display format.
pub fn parse_display_format(format: &str) -> (r: Result<DisplayFormat, String>)
    ensures
        match display_format(format@) {
            Some(f) => r == Ok::<DisplayFormat, String>(f),
            None => r is Err && r->Err_0@ == "Invalid display format: '"@ + format@
                + "'. Expected 'traceback', 'type-msg', or 'msg'"@,
        },
{
    if same(format, "traceback") {
        Ok(DisplayFormat::Traceback)
    } else if same(format, "type-msg") {
        Ok(DisplayFormat::TypeMsg)
    } else if same(format, "msg") {
        Ok(DisplayFormat::Msg)
    } else {
        Err(cat3("Invalid display format: '", format, "'. Expected 'traceback', 'type-msg', or 'msg'"))
    }
}

/// A single frame of a traceback as Python sees it.
pub struct PyFrame {
    pub filename: String,
    pub line: u32,
    pub column: u32,
    pub end_line: u32,
    pub end_column: u32,
    pub function_name: Option<String>,
    /// Which frame of the traceback holds the source line.
    pub source_line: Option<usize>,
}

impl PyFrame {
    /// The place of the frame; module-level code has no function name.
    pub fn repr_text(&self) -> (r: String)
        ensures
            r@ == "Frame(filename='"@ + self.filename@ + "', line="@ + decimal(self.line as nat) + ", column="@
                + decimal(self.column as nat) + ", function_name='"@ + match self.function_name {
                Some(name) => name@,
                None => "<module>"@,
            } + "')"@,
    {
        let function: String = match &self.function_name {
            Some(name) => name.clone(),
            None => "<module>".to_owned(),
        };
        let head: String = cat5(
            "Frame(filename='",
            self.filename.as_str(),
            "', line=",
            decimal_of(self.line as u64).as_str(),
            ", column=",
        );
        let mut out: String = head;
        out.append(decimal_of(self.column as u64).as_str());
        out.append(", function_name='");
        out.append(function.as_str());
        out.append("')");
        out
    }
}

// ---------------------------------------------------------------------------
// Shared source lines
// ---------------------------------------------------------------------------

/// `ahash::AHashMap`.
#[verifier::external_type_specification]
#[verifier::external_body]
#[verifier::reject_recursive_types(K)]
#[verifier::reject_recursive_types(V)]
#[verifier::reject_recursive_types(S)]
pub struct ExAHashMap<K, V, S>(ahash::AHashMap<K, V, S>);

/// `ahash::RandomState`.
#[verifier::external_type_specification]
#[verifier::external_body]
pub struct ExRandomState(ahash::RandomState);

/// The entries of a line cache.
pub uninterp spec fn line_cache(m: AHashMap<usize, usize, RandomState>) -> Map<usize, usize>;

/// `AHashMap::new` makes a map without entries.
#[verifier::external_body]
fn line_cache_new() -> (r: AHashMap<usize, usize, RandomState>)
    ensures
        line_cache(r).dom() == Set::<usize>::empty(),
{
    AHashMap::new()
}

/// `AHashMap::entry` and `or_insert`: the value under the key, which is put
/// there first where there is none.
#[verifier::external_body]
fn line_cache_or_insert(m: &mut AHashMap<usize, usize, RandomState>, key: usize, value: usize) -> (r: usize)
    ensures
        line_cache(*old(m)).contains_key(key) ==> r == line_cache(*old(m))[key] && line_cache(*final(m)) == line_cache(
            *old(m),
        ),
        !line_cache(*old(m)).contains_key(key) ==> r == value && line_cache(*final(m)) == line_cache(*old(m)).insert(
            key,
            value,
        ),
{
    *m.entry(key).or_insert(value)
}

/// Which frame provides the source line of a frame: the first one that shares
/// its line.
pub open spec fn provides_line(keys: Seq<Option<usize>>, i: int, source: Option<usize>) -> bool {
    match keys[i] {
        None => source is None,
        Some(key) => {
            &&& source is Some
            &&& source->Some_0 <= i
            &&& keys[source->Some_0 as int] == Some(key)
            &&& forall|j: int| 0 <= j < source->Some_0 ==> keys[j] != Some(key)
        },
    }
}

/// Finds which frame provides the source line of each frame, given the
/// identities of the lines.
fn shared_lines(keys: &Vec<Option<usize>>) -> (r: Vec<Option<usize>>)
    ensures
        r@.len() == keys@.len(),
        forall|i: int| 0 <= i < keys@.len() ==> provides_line(keys@, i, #[trigger] r@[i]),
{
    let mut cache: AHashMap<usize, usize, RandomState> = line_cache_new();
    let mut out: Vec<Option<usize>> = Vec::new();
    let mut i: usize = 0;
    while i < keys.len()
        invariant
            i <= keys@.len(),
            out@.len() == i,
            forall|k: usize|
                #[trigger] line_cache(cache).contains_key(k) ==> {
                    let first = line_cache(cache)[k];
                    &&& first < i
                    &&& keys@[first as int] == Some(k)
                    &&& forall|j: int| 0 <= j < first ==> keys@[j] != Some(k)
                },
            forall|j: int|
                0 <= j < i && (#[trigger] keys@[j]) is Some ==> line_cache(cache).contains_key(keys@[j]->Some_0),
            forall|j: int| 0 <= j < i ==> provides_line(keys@, j, #[trigger] out@[j]),
        decreases keys@.len() - i,
    {
        let source: Option<usize> = match keys[i] {
            None => None,
            Some(key) => Some(line_cache_or_insert(&mut cache, key, i)),
        };
        out.push(source);
        i = i + 1;
    }
    out
}

/// The identities of the source lines of a traceback.
pub open spec fn line_keys(traceback: Traceback) -> Seq<Option<usize>> {
    traceback.frames@.map_values(|f: StackFrame| f.preview_line)
}

/// The frames of a traceback as Python sees them. For deep recursion one string
/// serves every frame on a line.
pub fn build_traceback_list(traceback: &Traceback) -> (r: Vec<PyFrame>)
    ensures
        r@.len() == traceback.frames@.len(),
        forall|i: int|
            0 <= i < r@.len() ==> {
                let frame = traceback.frames@[i];
                &&& (#[trigger] r@[i]).filename@ == frame.filename@
                &&& r@[i].line == frame.start.line && r@[i].column == frame.start.column
                &&& r@[i].end_line == frame.end.line && r@[i].end_column == frame.end.column
                &&& r@[i].function_name is Some <==> frame.frame_name is Some
                &&& r@[i].function_name is Some ==> r@[i].function_name->Some_0@ == frame.frame_name->Some_0@
                &&& provides_line(line_keys(*traceback), i, r@[i].source_line)
            },
{
    let mut keys: Vec<Option<usize>> = Vec::new();
    let mut k: usize = 0;
    while k < traceback.frames.len()
        invariant
            k <= traceback.frames@.len(),
            keys@.len() == k,
            forall|j: int| 0 <= j < k ==> #[trigger] keys@[j] == traceback.frames@[j].preview_line,
        decreases traceback.frames@.len() - k,
    {
        keys.push(traceback.frames[k].preview_line);
        k = k + 1;
    }
    proof {
        assert(keys@ =~= line_keys(*traceback));
    }
    let sources: Vec<Option<usize>> = shared_lines(&keys);
    let mut out: Vec<PyFrame> = Vec::new();
    let mut i: usize = 0;
    while i < traceback.frames.len()
        invariant
            i <= traceback.frames@.len(),
            out@.len() == i,
            sources@.len() == traceback.frames@.len(),
            forall|j: int| 0 <= j < sources@.len() ==> provides_line(line_keys(*traceback), j, #[trigger] sources@[j]),
            forall|j: int|
                0 <= j < i ==> {
                    let frame = traceback.frames@[j];
                    &&& (#[trigger] out@[j]).filename@ == frame.filename@
                    &&& out@[j].line == frame.start.line && out@[j].column == frame.start.column
                    &&& out@[j].end_line == frame.end.line && out@[j].end_column == frame.end.column
                    &&& out@[j].function_name is Some <==> frame.frame_name is Some
                    &&& out@[j].function_name is Some ==> out@[j].function_name->Some_0@ == frame.frame_name->Some_0@
                    &&& provides_line(line_keys(*traceback), j, out@[j].source_line)
                },
        decreases traceback.frames@.len() - i,
    {
        let frame: &StackFrame = &traceback.frames[i];
        out.push(
            PyFrame {
                filename: frame.filename.clone(),
                line: frame.start.line,
                column: frame.start.column,
                end_line: frame.end.line,
                end_column: frame.end.column,
                function_name: match &frame.frame_name {
                    Some(name) => Some(name.clone()),
                    None => None,
                },
                source_line: sources[i],
            },
        );
        i = i + 1;
    }
    out
}

// ---------------------------------------------------------------------------
// Sandbox exceptions as native Python exceptions
// ---------------------------------------------------------------------------

/// The name of a frame in a rendered traceback.
pub open spec fn frame_place(frame: StackFrame) -> Seq<char> {
    let at = "\n  File \""@ + frame.filename@ + "\", line "@ + decimal(frame.start.line as nat);
    if frame.hide_frame_name {
        at
    } else {
        at + ", in "@ + match frame.frame_name {
            Some(name) => name@,
            None => "<module>"@,
        }
    }
}

/// A frame in a rendered traceback: its place, and its source line below.
pub open spec fn frame_text(frame: StackFrame, previews: Seq<String>) -> Seq<char> {
    match frame.preview_line {
        Some(k) => if k < previews.len() {
            frame_place(frame) + "\n    "@ + previews[k as int]@
        } else {
            frame_place(frame)
        },
        None => frame_place(frame),
    }
}

/// The frames of a traceback, one below the other.
pub open spec fn frames_text(frames: Seq<StackFrame>, previews: Seq<String>) -> Seq<char>
    decreases frames.len(),
{
    if frames.len() == 0 {
        Seq::empty()
    } else {
        frames_text(frames.drop_last(), previews) + frame_text(frames.last(), previews)
    }
}

/// The message of an exception with its traceback folded in.
pub open spec fn folded_message(exc: RaisedException) -> Seq<char> {
    message_text(exc.message) + frames_text(exc.traceback.frames@, exc.traceback.previews@)
}

fn append_frame(out: &mut String, frame: &StackFrame, previews: &Vec<String>)
    ensures
        final(out)@ == old(out)@ + frame_text(*frame, previews@),
{
    let ghost before = out@;
    out.append("\n  File \"");
    out.append(frame.filename.as_str());
    out.append("\", line ");
    out.append(decimal_of(frame.start.line as u64).as_str());
    if !frame.hide_frame_name {
        out.append(", in ");
        match &frame.frame_name {
            Some(name) => out.append(name.as_str()),
            None => out.append("<module>"),
        }
    }
    proof {
        assert(out@ =~= before + frame_place(*frame));
    }
    if let Some(k) = frame.preview_line {
        if k < previews.len() {
            out.append("\n    ");
            out.append(previews[k].as_str());
        }
    }
    proof {
        assert(out@ =~= before + frame_text(*frame, previews@));
    }
}

/// Folds the traceback of an exception into its message.
pub fn fold_traceback(exc: &RaisedException) -> (r: String)
    ensures
        r@ == folded_message(*exc),
{
    let mut out: String = message_or_empty(&exc.message);
    let ghost message = out@;
    let ghost frames = exc.traceback.frames@;
    let ghost previews = exc.traceback.previews@;
    let mut i: usize = 0;
    proof {
        assert(frames.take(0) =~= Seq::<StackFrame>::empty());
        assert(out@ =~= message + frames_text(frames.take(0), previews));
    }
    while i < exc.traceback.frames.len()
        invariant
            i <= frames.len(),
            frames == exc.traceback.frames@,
            previews == exc.traceback.previews@,
            out@ == message + frames_text(frames.take(i as int), previews),
        decreases frames.len() - i,
    {
        let ghost before = out@;
        append_frame(&mut out, &exc.traceback.frames[i], &exc.traceback.previews);
        proof {
            assert(frames.take(i + 1).drop_last() =~= frames.take(i as int));
            assert(out@ =~= message + frames_text(frames.take(i + 1), previews));
        }
        i = i + 1;
    }
    proof {
        assert(frames.take(frames.len() as int) =~= frames);
    }
    out
}

/// How a sandbox exception is raised as a native Python exception.
pub struct NativeException {
    /// The class to raise and its stand-in.
    pub plan: RaisePlan,
    /// The fields that a structured class is built from.
    pub data: Option<UnicodeErrorData>,
    /// The message that any other class is built from.
    pub message: String,
}

/// Converts a sandbox exception of type `exc_type` to the matching Python
/// exception. Its traceback is folded into the message; a codec error that
/// carries its structured fields is built from them.
#[must_use]
pub fn exc_monty_to_py(exc_type: ExcType, exc: RaisedException) -> (r: NativeException)
    ensures
        r.plan == raise_plan(exc_type, exc.data is Some),
        r.data == exc.data,
        r.message@ == folded_message(exc),
{
    let message: String = fold_traceback(&exc);
    NativeException { plan: plan_raise(exc_type, exc.data.is_some()), data: exc.data, message }
}

/// The folded message begins with the message of the exception, and is that
/// message alone where there is no traceback.
pub proof fn law_folding_keeps_the_message(exc: RaisedException)
    ensures
        is_prefix(message_text(exc.message), folded_message(exc)),
        exc.traceback.frames@.len() == 0 ==> folded_message(exc) == message_text(exc.message),
        exc.traceback.frames@.len() > 0 ==> folded_message(exc).len() > message_text(exc.message).len(),
{
    let message = message_text(exc.message);
    let text = frames_text(exc.traceback.frames@, exc.traceback.previews@);
    assert(folded_message(exc).take(message.len() as int) =~= message);
    if exc.traceback.frames@.len() == 0 {
        assert(message + text =~= message);
    } else {
        reveal_strlit("\n  File \"");
        assert(frame_place(exc.traceback.frames@.last()).len() > 0);
    }
}

// ---------------------------------------------------------------------------
// Python exceptions on their way into the sandbox
// ---------------------------------------------------------------------------

/// Converts a Python exception to one of the sandbox. `classes` are the known
/// classes that it is an instance of, and `text` is the exception as a string,
/// if it has one.
pub fn exc_py_to_monty(classes: &Vec<ExcType>, text: Option<String>) -> (r: RaisedException)
    ensures
        r.exc_type@ == classify(classes@.to_set()).name(),
        r.message == text,
        r.traceback.frames@.len() == 0,
        r.traceback.previews@.len() == 0,
        r.data is None,
{
    RaisedException {
        exc_type: py_err_to_exc_type(classes).to_text(),
        message: text,
        traceback: Traceback::empty(),
        data: None,
    }
}

/// Converts a Python exception to a value of the sandbox.
#[must_use]
pub fn exc_to_monty_object(classes: &Vec<ExcType>, text: Option<String>) -> (r: MontyObject)
    ensures
        r == (MontyObject::Exception { exc_type: classify(classes@.to_set()), arg: text }),
{
    MontyObject::Exception { exc_type: py_err_to_exc_type(classes), arg: text }
}

// ---------------------------------------------------------------------------
// Pool failures
// ---------------------------------------------------------------------------

/// The Python exception that a pool failure is raised as.
pub enum PyFailure {
    /// A sandbox exception.
    Sandbox(RaisedException),
    Typing(MontyTypingError),
    Crashed(MontyCrashedError),
    Timeout(String),
    Runtime(String),
}

/// Maps a pool failure onto the Python exception hierarchy; `message` is the
/// failure in words.
pub fn pool_err_to_py(err: PoolError, message: String) -> (r: PyFailure)
    ensures
        match err {
            PoolError::Runtime(exc) => r == PyFailure::Sandbox(exc),
            PoolError::Typing(diagnostics) => r == PyFailure::Typing(MontyTypingError { rendered: diagnostics }),
            PoolError::Crashed { status, .. } => r is Crashed && r->Crashed_0.is_crash(
                message@,
                false,
                match status {
                    Some(status) => status.code,
                    None => None,
                },
            ),
            PoolError::Timeout { .. } => r is Crashed && r->Crashed_0.is_crash(message@, true, None),
            PoolError::Exhausted => r == PyFailure::Timeout(message),
            PoolError::Protocol(_) | PoolError::Spawn(_) | PoolError::Finished => r == PyFailure::Runtime(message),
        },
{
    match err {
        PoolError::Runtime(exc) => PyFailure::Sandbox(exc),
        PoolError::Typing(diagnostics) => PyFailure::Typing(MontyTypingError::new_err(diagnostics)),
        PoolError::Crashed { status, .. } => {
            let code: Option<i32> = match status {
                Some(status) => status.code,
                None => None,
            };
            PyFailure::Crashed(MontyCrashedError::new_err(message, false, code))
        },
        PoolError::Timeout { .. } => PyFailure::Crashed(MontyCrashedError::new_err(message, true, None)),
        PoolError::Exhausted => PyFailure::Timeout(message),
        PoolError::Protocol(_) | PoolError::Spawn(_) | PoolError::Finished => PyFailure::Runtime(message),
    }
}

// ---------------------------------------------------------------------------
// Laws
// ---------------------------------------------------------------------------

/// One frame more adds its file, its line, its function unless that is hidden,
/// and its source line where it has one, below everything before it.
pub proof fn law_each_frame_is_folded_in(frames: Seq<StackFrame>, previews: Seq<String>, frame: StackFrame)
    ensures
        frames_text(Seq::empty(), previews) == Seq::<char>::empty(),
        frames_text(frames.push(frame), previews) == frames_text(frames, previews) + (
            "\n  File \""@ + frame.filename@ + "\", line "@ + decimal(frame.start.line as nat)
        ) + (if frame.hide_frame_name {
            Seq::<char>::empty()
        } else if frame.frame_name is Some {
            ", in "@ + frame.frame_name->Some_0@
        } else {
            ", in "@ + "<module>"@
        }) + (if frame.preview_line is Some && frame.preview_line->Some_0 < previews.len() {
            "\n    "@ + previews[frame.preview_line->Some_0 as int]@
        } else {
            Seq::<char>::empty()
        }),
{
    assert(frames.push(frame).drop_last() =~= frames);
    let before = frames_text(frames, previews);
    let place = "\n  File \""@ + frame.filename@ + "\", line "@ + decimal(frame.start.line as nat);
    let function = if frame.hide_frame_name {
        Seq::<char>::empty()
    } else if frame.frame_name is Some {
        ", in "@ + frame.frame_name->Some_0@
    } else {
        ", in "@ + "<module>"@
    };
    let source = if frame.preview_line is Some && frame.preview_line->Some_0 < previews.len() {
        "\n    "@ + previews[frame.preview_line->Some_0 as int]@
    } else {
        Seq::<char>::empty()
    };
    assert(frame_place(frame) =~= place + function);
    assert(frame_text(frame, previews) =~= place + function + source);
    assert(before + frame_text(frame, previews) =~= before + place + function + source);
}

/// The folded message is the message of the exception, empty where it has none,
/// followed by its frames.
pub proof fn law_folded_messages_end_with_the_frames(exc: RaisedException)
    ensures
        exc.message is Some ==> folded_message(exc) == exc.message->Some_0@ + frames_text(
            exc.traceback.frames@,
            exc.traceback.previews@,
        ),
        exc.message is None ==> folded_message(exc) == frames_text(exc.traceback.frames@, exc.traceback.previews@),
{
    if exc.message is None {
        assert(folded_message(exc) =~= frames_text(exc.traceback.frames@, exc.traceback.previews@));
    }
}

/// Frames on one source line take it from one frame, the first of them; frames
/// on different lines take them from different ones.
pub proof fn law_source_lines_are_shared(traceback: Traceback, i: int, j: int, a: Option<usize>, b: Option<usize>)
    requires
        0 <= i < traceback.frames@.len(),
        0 <= j < traceback.frames@.len(),
        provides_line(line_keys(traceback), i, a),
        provides_line(line_keys(traceback), j, b),
    ensures
        a is None <==> traceback.frames@[i].preview_line is None,
        a is Some ==> a->Some_0 <= i && traceback.frames@[a->Some_0 as int].preview_line == traceback.frames@[i].preview_line,
        a is Some ==> forall|e: int|
            0 <= e < a->Some_0 ==> (#[trigger] traceback.frames@[e]).preview_line != traceback.frames@[i].preview_line,
        a == b <==> traceback.frames@[i].preview_line == traceback.frames@[j].preview_line,
{
    let keys = line_keys(traceback);
    assert(keys[i] == traceback.frames@[i].preview_line);
    assert(keys[j] == traceback.frames@[j].preview_line);
    if a is Some {
        let first = a->Some_0 as int;
        assert(keys[first] == traceback.frames@[first].preview_line);
        assert forall|e: int| 0 <= e < first implies (#[trigger] traceback.frames@[e]).preview_line
            != traceback.frames@[i].preview_line by {
            assert(keys[e] == traceback.frames@[e].preview_line);
        }
    }
    if b is Some {
        let first = b->Some_0 as int;
        assert(keys[first] == traceback.frames@[first].preview_line);
    }
    if a is Some && b is Some {
        let x = a->Some_0 as int;
        let y = b->Some_0 as int;
        if keys[i] == keys[j] {
            if x < y {
                assert(keys[x] != keys[j]);
            } else if y < x {
                assert(keys[y] != keys[i]);
            }
        }
    }
}

/// A runtime error reads as its type, with a message behind it exactly where
/// the message says something.
pub proof fn law_runtime_errors_read_as_type_and_message(e: MontyError)
    ensures
        e.exc.message is None ==> type_and_message(e) == e.exc.exc_type@,
        e.exc.message is Some && e.exc.message->Some_0@.len() == 0 ==> type_and_message(e) == e.exc.exc_type@,
        e.exc.message is Some && e.exc.message->Some_0@.len() > 0 ==> type_and_message(e) == e.exc.exc_type@ + ": "@
            + e.exc.message->Some_0@,
{
}

/// Each display format has one name, and no other text names one.
pub proof fn law_display_formats_go_by_name(name: Seq<char>)
    ensures
        display_format(name) == Some(DisplayFormat::Traceback) <==> name == "traceback"@,
        display_format(name) == Some(DisplayFormat::TypeMsg) <==> name == "type-msg"@,
        display_format(name) == Some(DisplayFormat::Msg) <==> name == "msg"@,
{
    reveal_strlit("traceback");
    reveal_strlit("type-msg");
    reveal_strlit("msg");
    assert("traceback"@.len() == 9 && "type-msg"@.len() == 8 && "msg"@.len() == 3);
}

/// The death of a worker is a `RuntimeError` with the whole message, and says
/// whether a deadline passed and how the worker ended.
pub proof fn law_crashes_say_how_the_worker_ended(
    e: MontyCrashedError,
    message: Seq<char>,
    timed_out: bool,
    exit_status: Option<i32>,
)
    requires
        e.is_crash(message, timed_out, exit_status),
    ensures
        e.base.exc.exc_type@ == "RuntimeError"@,
        e.base.exc.message is Some,
        e.base.exc.message->Some_0@ == message,
        e.timed_out == timed_out,
        e.exit_status == exit_status,
{
}

} // verus!
