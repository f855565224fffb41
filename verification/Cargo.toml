[package]
name = "sol2ink"
version = "0.1.0"
edition = "2021"
publish = false

[dependencies]
regex = "=1.13.1"
substring = "=1.4.5"
proc-macro2 = "=1.0.107"
quote = "=1.0.47"
convert_case = "=0.12.0"
rust-format = { version = "=0.3.4", features = ["token_stream", "post_process"] }
