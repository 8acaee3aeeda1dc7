[package]
name = "folder_core"
version = "0.1.0"
edition = "2021"
publish = false

[dependencies]
chrono = "0.4"
log = "0.4"
tracing = "0.1"
tokio = { version = "1", features = ["rt"] }
