[package]
name = "cortex_ai"
version = "0.1.0"
edition = "2021"
publish = false

[dependencies]
either = "*"
flume = "*"
tokio = { version = "*", features = ["rt", "rt-multi-thread", "macros", "sync", "time"] }
tracing = "*"
thiserror = "*"
serde = { version = "*", features = ["derive"] }
serde_json = "*"
rdkafka = "*"
