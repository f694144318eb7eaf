[package]
name = "inference_pool"
version = "0.1.0"
edition = "2021"
publish = false

[dependencies]
async-trait = "0.1"
flume = "0.11"
num_cpus = "1"
parking_lot = "0.12"
serde = { version = "1", features = ["derive"] }
tokio = { version = "1", features = ["sync", "rt", "time", "macros"] }
tracing = "0.1"
