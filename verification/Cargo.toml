[package]
name = "ts2zig"
version = "0.1.0"
edition = "2021"
publish = false

[dependencies]
oxc_span = "=0.143.0"
proc-macro2 = "=1.0.107"
quote = "=1.0.47"
