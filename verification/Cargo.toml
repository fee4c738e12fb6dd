[package]
name = "gox5_runtime"
version = "0.1.0"
edition = "2021"
publish = false

[dependencies]
libc = "0.2"
tokio = { version = "1", default-features = false, features = ["sync", "rt", "rt-multi-thread"] }
