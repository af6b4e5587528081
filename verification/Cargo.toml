[package]
name = "scripture_ref"
version = "0.1.0"
edition = "2021"
publish = false

[dependencies]
miette = "7"
thiserror = "2"
syn = { version = "2", features = ["full"] }
quote = "1"
proc-macro2 = "1"
