[package]
name = "passthrough_consensus"
version = "0.1.0"
edition = "2021"
publish = false

[dependencies]
tokio = { version = "*", features = ["rt", "time", "sync"] }
