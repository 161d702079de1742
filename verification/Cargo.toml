[package]
name = "rio_core"
version = "0.1.0"
edition = "2021"
publish = false

[dependencies]
hex = "0.4"
jsonrpc-core = "*"
parity-scale-codec = { version = "*", features = ["derive"] }
serde = { version = "1", features = ["derive"] }
serde_json = "1"
