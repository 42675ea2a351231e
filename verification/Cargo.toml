[package]
name = "papertrail_logger"
version = "0.1.0"
edition = "2021"
publish = false

[dependencies]
chrono = { version = "0.4", default-features = false, features = ["clock", "std"] }
log = { version = "0.4", features = ["std"] }
tokio = { version = "1", features = ["rt-multi-thread", "sync", "fs", "net", "io-util"] }
tokio-native-tls = "0.3"
