[package]
name = "rayforce_bridge"
version = "0.1.0"
edition = "2021"
publish = false

[dependencies]
log = "*"
once_cell = "*"
parking_lot = "*"
serde = { version = "*", features = ["derive"] }
serde_json = "*"
tokio = { version = "*", features = ["sync"] }
