[package]
name = "tx_engine"
version = "0.1.0"
edition = "2021"
publish = false

[dependencies]
csv = "*"
rust_decimal = "*"
serde = { version = "*", features = ["derive"] }
