[package]
name = "robokit"
version = "0.1.0"
edition = "2021"
publish = false

[dependencies]
num-traits = "0.2"
postcard = "1"
serde = { version = "1", features = ["derive"] }
