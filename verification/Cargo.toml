[package]
name = "ro_world"
version = "0.1.0"
edition = "2021"
publish = false

[dependencies]
chrono = "0.4"
pathfinding = "4"
uuid = { version = "1", features = ["v4"] }
rand = "0.8"
serde = { version = "1", features = ["derive"] }
serde_yaml = "0.9"
thiserror = "1"
tokio = { version = "1", features = ["sync"] }
parking_lot = "0.12"
tracing = "0.1"
anyhow = "1"
