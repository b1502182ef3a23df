[package]
name = "serial_debug_assistant"
version = "0.1.0"
edition = "2021"
publish = false

[dependencies]
chrono = "0.4"
serde = { version = "1", features = ["derive"] }
serde_json = "1"
serialport = { version = "4.7", default-features = false }
thiserror = "1.0"
tokio = { version = "1.45", features = ["full"] }
tokio-serial = { version = "5.4", default-features = false }
toml = "0.8"
