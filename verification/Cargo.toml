[package]
name = "sipcore"
version = "0.1.0"
edition = "2021"
publish = false

[dependencies]
rsip = "0.4"
tokio = { version = "1", features = ["net", "io-util", "sync", "rt", "time", "macros"] }
tokio-util = { version = "0.7" }
tracing = "0.1"
async-trait = "0.1"
