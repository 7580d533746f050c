[package]
name = "generic_new"
version = "0.2.0"
edition = "2021"
publish = false

[dependencies]
proc-macro2 = "=1.0.107"
quote = "=1.0.47"
syn = { version = "=2.0.119", features = ["full"] }
proc-macro-error = "=1.0.4"
