//! Builders for the events of the CPython worker.
//!
//! Accounting is left zero: this worker has no resource tracker, so it cannot
//! report execution time or a time limit.

use crate::proto::{event, fatal_error_event, protocol_violation, ChildEvent, EventKind, FunctionCall, MontyObject, PrintStream};
use vstd::prelude::*;

verus! {

/// A turn-ending error for a recoverable protocol violation.
pub fn violation(message: &str) -> (e: ChildEvent)
    ensures
        e.is_violation(message@),
{
    protocol_violation(message)
}

/// The last event of the worker: it exits right after sending this.
pub fn fatal_event(message: &str) -> (e: ChildEvent)
    ensures
        e.is_fatal(message@),
{
    fatal_error_event(message)
}

/// A suspension for an undefined name the sandbox called.
pub fn function_call_event(
    function_name: String,
    args: Vec<MontyObject>,
    kwargs: Vec<(MontyObject, MontyObject)>,
    call_id: u32,
) -> (e: ChildEvent)
    ensures
        e == ChildEvent::plain(
            EventKind::FunctionCall(FunctionCall { function_name, args, kwargs, call_id, method_call: false }),
        ),
{
    event(EventKind::FunctionCall(FunctionCall { function_name, args, kwargs, call_id, method_call: false }))
}

/// A suspension for an undefined name the sandbox referenced.
pub fn name_lookup_event(name: String) -> (e: ChildEvent)
    ensures
        e == ChildEvent::plain(EventKind::NameLookup(name)),
{
    event(EventKind::NameLookup(name))
}

/// A streamed `print()` chunk on `stream`.
pub fn print_event(stream: PrintStream, text: String) -> (e: ChildEvent)
    ensures
        e == ChildEvent::plain(EventKind::Print { stream, text }),
{
    event(EventKind::Print { stream, text })
}

} // verus!
