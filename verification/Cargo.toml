[package]
name = "converlex"
version = "0.1.0"
edition = "2021"
publish = false

[dependencies]
anyhow = "1"
futures-util = "0.3"
rfd = "*"
tokio = { version = "1", features = ["io-util", "macros", "process", "rt-multi-thread", "sync"] }
uuid = { version = "1", features = ["v4"] }
vizia = "*"
