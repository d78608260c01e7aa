[package]
name = "node_config"
version = "0.1.0"
edition = "2021"
publish = false

[dependencies]
fuel-tx = "=0.23.0"
tokio = { version = "1", features = ["process", "rt-multi-thread", "time", "macros"] }
tempfile = "3"
portpicker = "0.1"

[dev-dependencies]
serde_json = "1"
