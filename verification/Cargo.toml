[package]
name = "hello"
version = "0.1.0"
edition = "2021"
publish = false

[dependencies]
crossterm = "=0.29.0"
curl = "=0.4.50"
directories = "=6.0.0"
parking_lot = "=0.12.5"
serde = { version = "=1.0.229", features = ["derive"] }
serde_json = "=1.0.151"
unicode-width = "=0.2.2"
