[package]
name = "csv_payment_engine"
version = "0.1.0"
edition = "2021"
publish = false

[dependencies]
csv = "=1.4.0"
rust_decimal = "=1.36.0"
serde = { version = "=1.0.229", features = ["derive"] }
thiserror = "=2.0.21"

[dev-dependencies]
csv = "=1.4.0"
