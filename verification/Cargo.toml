[package]
name = "caf_format"
version = "0.1.0"
edition = "2021"
publish = false

[dependencies]
bevy = { version = "0.15", default-features = false }
serde = "1"
serde_json = "1"
