[package]
name = "astel"
version = "0.1.0"
edition = "2021"
publish = false

[dependencies]
axum = "=0.6.20"
maud = "=0.25.0"
serde = { version = "1", features = ["derive"] }
serde_json = "1"
