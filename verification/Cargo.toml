[package]
name = "qc_analytics"
version = "0.1.0"
edition = "2021"
publish = false

[dependencies]
directories = "=6.0.0"
rusqlite = { version = "=0.40.2", features = ["bundled"] }
serde = { version = "=1.0.229", features = ["derive"] }
tauri = { version = "2", default-features = false }
