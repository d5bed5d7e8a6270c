[package]
name = "monty_host"
version = "0.1.0"
edition = "2021"
publish = false

[dependencies]
abi_stable = "=0.11.3"
ahash = "=0.8.12"
napi = { version = "=3.16.1", features = ["tokio_rt"] }
napi-derive = "=3.7.0"
postcard = { version = "=1.1.3", features = ["alloc"] }
proc-macro2 = "1"
prost = "=0.14.4"
pyo3 = { version = "=0.30.1", features = ["abi3-py312", "extension-module"] }
pyo3-async-runtimes = { version = "=0.30.0", features = ["tokio-runtime"] }
quote = "1"
send_wrapper = "=0.6.0"
serde = { version = "1", features = ["derive"] }
syn = { version = "2", features = ["full", "extra-traits"] }
tokio = { version = "1", features = ["rt", "rt-multi-thread"] }
