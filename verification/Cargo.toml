[package]
name = "snapshot_harness"
version = "0.1.0"
edition = "2021"
publish = false

[dependencies]
glob = "0.3"
toml = "0.5"
serde = { version = "1.0", features = ["derive"] }
