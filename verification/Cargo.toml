[package]
name = "xabc_parser"
version = "0.1.0"
edition = "2021"
publish = false

[dependencies]
anyhow = "*"
clap = { version = "*", features = ["derive"] }
memmap2 = "*"
tracing = "*"
tracing-subscriber = "*"
