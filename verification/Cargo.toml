[package]
name = "spacetimedb_vm"
version = "0.1.0"
edition = "2021"
publish = false

[dependencies]
anyhow = "1"
clap = "4"
proc-macro2 = "1"
quote = "1"
reqwest = { version = "0.12", default-features = false }
syn = { version = "2", features = ["full"] }
