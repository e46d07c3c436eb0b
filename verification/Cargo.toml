[package]
name = "json_reader"
version = "0.1.0"
edition = "2021"
publish = false

[dependencies]
arrow = { version = "57.3", default-features = false }
num = "0.2"
serde_json = "1.0"
