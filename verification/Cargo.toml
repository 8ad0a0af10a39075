[package]
name = "payments_engine"
version = "0.1.0"
edition = "2021"
publish = false

[dependencies]
rust_decimal = "1"
indexmap = "2"
csv = "1"
serde = { version = "1", features = ["derive"] }
