[package]
name = "ros2_encode"
version = "0.1.0"
edition = "2021"
publish = false

[dependencies]
arrow = { version = "=60.0.0", default-features = false }
dora-core = "=1.1.0"
dora-message = "=1.1.0"
dora-ros2-bridge-msg-gen = "=1.1.0"
eyre = "=0.6.14"
futures = "=0.3.34"
futures-concurrency = "=7.7.1"
serde = { version = "=1.0.229", features = ["derive"] }
serde_json = "=1.0.154"
tokio = { version = "=1.54.1", features = ["net", "sync", "rt", "io-util", "macros"] }
tokio-stream = "=0.1.19"
tracing = "=0.1.44"
widestring = "=1.2.1"
