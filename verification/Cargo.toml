[package]
name = "anisto"
version = "0.1.0"
edition = "2021"
publish = false

[dependencies]
royal = "*"
serde = { version = "1", features = ["derive"] }
serde_json = "1"
tauri = { version = "*", default-features = false }
