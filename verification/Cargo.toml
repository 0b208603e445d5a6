[package]
name = "rust-parallel"
version = "0.1.0"
edition = "2021"
publish = false

[dependencies]
anyhow = "1"
clap = { version = "4", features = ["derive"] }
itertools = "0.12"
regex = "1"
tokio = { version = "1", features = ["full"] }
tracing = "0.1"
