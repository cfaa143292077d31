[package]
name = "telemetry_pipeline"
version = "0.1.0"
edition = "2021"
publish = false

[dependencies]
tokio = { version = "1", features = ["rt-multi-thread", "macros", "sync", "time"] }
mongodb = "3"
bson = "2"
segment = "*"
serde_json = "1"
