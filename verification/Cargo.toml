[package]
name = "vyges-opendb"
version = "0.1.0"
edition = "2021"
publish = false

[dependencies]
cxx = "1"
serde = { version = "1", features = ["derive"] }
serde_json = "1"
