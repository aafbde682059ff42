[package]
name = "zstream"
version = "0.1.0"
edition = "2021"
publish = false

[dependencies]
zstd-safe = { version = "=7.3.0", features = ["std"] }
