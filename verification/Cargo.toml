[package]
name = "assert2ify"
version = "0.1.0"
edition = "2021"
publish = false

[dependencies]
assert2 = "=0.3.16"
proc-macro2 = { version = "=1.0.107", features = ["span-locations"] }
quote = "=1.0.47"
syn = { version = "=2.0.119", features = ["full", "fold", "extra-traits"] }
