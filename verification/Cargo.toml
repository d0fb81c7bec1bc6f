[package]
name = "eadai"
version = "0.1.0"
edition = "2021"
publish = false

[dependencies]
rmcp = { version = "*", features = ["server", "transport-io"] }
serde = { version = "=1.0.229", features = ["derive"] }
serde_json = "1"
serialport = { version = "=4.10.1", default-features = false }
tokio = { version = "1", features = ["rt-multi-thread", "macros", "io-std"] }
