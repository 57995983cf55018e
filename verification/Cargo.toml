[package]
name = "klatt_rs"
version = "0.1.0"
edition = "2021"
publish = false

[dependencies]
espeak-ng = { version = "=0.2.0", features = ["bundled-data-en"] }
