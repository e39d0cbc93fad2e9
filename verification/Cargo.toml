[package]
name = "nexcore-notebooklm"
version = "0.1.0"
edition = "2021"
publish = false

[dependencies]
serde = { version = "1", features = ["derive"] }
serde_json = "1"
tokio = { version = "1", features = ["rt", "time", "sync", "macros"] }
futures = "0.3"
parking_lot = "0.12"
tracing = "0.1"
chromiumoxide = "*"
nexcore-chrono = "*"
nexcore-error = "*"
nexcore-fs = "*"
nexcore-id = "*"
