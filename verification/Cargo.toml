[package]
name = "nfsserve"
version = "0.1.0"
edition = "2021"
publish = false

[dependencies]
anyhow = "1"
async-trait = "0.1"
byteorder = "1.5"
futures = "0.3"
tokio = { version = "1", features = ["io-util", "macros", "net", "rt", "sync", "time"] }
tokio-util = "0.7"
tracing = "0.1"
