[package]
name = "ascend_kas"
version = "0.1.0"
edition = "2021"
publish = false

[dependencies]
hex = "0.4"
serde_json = "1"
log = "0.4"
env_logger = "0.11"
clap = { version = "4", features = ["derive", "env"] }
libloading = "0.8"
rand = "0.8"
tokio = { version = "1", features = ["rt-multi-thread", "macros", "net", "io-util", "time", "sync", "signal"] }
