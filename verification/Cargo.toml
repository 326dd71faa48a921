[package]
name = "hringas"
version = "0.1.0"
edition = "2021"
publish = false

[dependencies]
rustix = { version = "1", features = ["event", "fs", "io_uring", "mm", "net", "pipe"] }
