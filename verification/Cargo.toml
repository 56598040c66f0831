[package]
name = "riven"
version = "0.1.0"
edition = "2021"
publish = false

[dependencies]
reqwest = { version = "0.11", default-features = false, features = ["json"] }
tokio = { version = "1", features = ["rt", "sync", "time", "macros"] }
futures = "0.3"
parking_lot = "0.12"
serde = "1"
serde_json = "1"
