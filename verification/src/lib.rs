//! Host-side logic of the sandboxed interpreter service, verified with Verus.

pub mod bind_args;
pub mod checkout;
pub mod common;
pub mod dump;
pub mod events;
pub mod exc;
pub mod ext_api;
pub mod ext_exports;
pub mod ext_macros;
pub mod ext_runtime;
pub mod frame;
pub mod from_args;
pub mod fs_error;
pub mod host_path;
pub mod js;
pub mod mount_table;
pub mod path_security;
pub mod print;
pub mod proto;
pub mod py_exceptions;
pub mod python;
pub mod repl;
pub mod resolve;
pub mod session;
pub mod text;
pub mod traceback;
pub mod worker;
