[package]
name = "network"
version = "0.1.0"
edition = "2021"
publish = false

[dependencies]
bytes = "1"
rand = "0.8"
thiserror = "1"
tokio = { version = "1", features = ["net", "rt-multi-thread", "macros"] }
tracing = "0.1"
tracing-subscriber = "0.3"
