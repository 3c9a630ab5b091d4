[package]
name = "tramex"
version = "0.1.0"
edition = "2021"
publish = false

[dependencies]
egui = { version = "=0.37.0", default-features = false }
serde = { version = "=1.0.229", features = ["derive"] }
serde_json = "=1.0.154"
