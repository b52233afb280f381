[package]
name = "shared_auth"
version = "0.1.0"
edition = "2021"
publish = false

[dependencies]
rand = "0.9"
rustix = { version = "1", features = ["fs", "process"] }
serde = { version = "1", features = ["derive"] }
serde_json = "1"

[dev-dependencies]
anyhow = "1"
tempfile = "3"
