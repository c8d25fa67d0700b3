[package]
name = "aftiktuna"
version = "0.1.0"
edition = "2021"
publish = false

[dependencies]
rand = "0.9"
indexmap = "2"
hecs = "0.10"
serde = { version = "1", features = ["derive"] }
serde_json = "1"
