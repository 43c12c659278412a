[package]
name = "rlx_metal"
version = "0.1.0"
edition = "2021"
publish = false

[dependencies]
half = "2"
metal = "*"
objc = "0.2"
serde = { version = "1", features = ["derive"] }
serde_json = "1"
