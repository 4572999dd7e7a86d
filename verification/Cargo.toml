[package]
name = "rust_imsai_emulator"
version = "0.1.0"
edition = "2021"
publish = false

[dependencies]
intel8080 = "*"
serde = { version = "1", features = ["derive"] }
serde_json = "1"
crossterm = "*"
