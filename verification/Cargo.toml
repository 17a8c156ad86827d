[package]
name = "greentic_dw"
version = "0.1.0"
edition = "2021"
publish = false

[dependencies]
anyhow = "1"
async-nats = "*"
clap = { version = "4", features = ["derive"] }
futures-util = "0.3"
schemars = "1"
serde = { version = "1", features = ["derive"] }
serde_cbor = "0.11"
serde_json = "1"
thiserror = "2"
tokio = { version = "1", features = ["rt-multi-thread", "net", "io-util", "macros", "signal", "time"] }
tracing = "0.1"
tracing-subscriber = "0.3"
ureq = "3"
