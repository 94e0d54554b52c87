[package]
name = "stated"
version = "0.1.0"
edition = "2021"
publish = false

[dependencies]
itertools = "0.14"
syn = { version = "2", features = ["full", "visit-mut", "extra-traits"] }
quote = "1"
proc-macro2 = "1"
extend = "1"
