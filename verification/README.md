# monty_host

The host side of a sandboxed Python interpreter: what decides, parses, frames
and checks, with contracts that Verus proves.

- `src/` is the library. Paths and mounts: `text`, `fs_error`, `host_path`,
  `path_security`, `resolve`, `common`, `mount_table`. The worker protocol:
  `exc`, `proto`, `frame`, `dump`, `print`, `worker`, `checkout`, `events`.
  The CPython worker: `traceback`, `session`. Host languages: `py_exceptions`,
  `python`, `repl`, `js`. Native extensions: `ext_api`, `ext_runtime`,
  `ext_macros`, `ext_exports`. Argument binding: `from_args`, `bind_args`.
- `app/` is ordinary Rust around it: processes, files, Python and Node classes,
  and procedural macros. It performs what the library asks for and hands the
  outcome back.
- `tests/` runs the library on concrete values.

Interpreters, processes and file systems are never called from the library. A
state machine says what to do next, and the caller reports what happened.
Public functions named `law_*` state what holds across several functions.
