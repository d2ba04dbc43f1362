[package]
name = "sylvia_core"
version = "0.1.0"
edition = "2021"
publish = false

[dependencies]
konst = "0.3"
convert_case = "0.6"
syn = { version = "1.0", features = ["full", "extra-traits"] }
quote = "1.0"
proc-macro2 = "1.0"
proc-macro-error = "1.0"
proc-macro-crate = "1.3"

[dev-dependencies]
serde_json = "1.0"
