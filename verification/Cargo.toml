[package]
name = "quind"
version = "0.1.0"
edition = "2021"
publish = false

[dependencies]
kv = "*"
notify = "*"
serde = { version = "1", features = ["derive"] }
serde_json = "1"
thiserror = "1"
