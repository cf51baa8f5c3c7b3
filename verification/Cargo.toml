[package]
name = "reticulum"
version = "0.1.0"
edition = "2021"
publish = false

[dependencies]
embassy-time = "=0.5.1"
log = "=0.4.35"
tokio = { version = "=1.54.1", features = ["sync", "time", "rt", "macros"] }
tokio-util = "=0.7.20"

[dev-dependencies]
critical-section = { version = "=1.2.0", features = ["std"] }
embassy-time = { version = "=0.5.1", features = ["mock-driver"] }
