[package]
name = "screen_assistant"
version = "0.1.0"
edition = "2021"
publish = false

[dependencies]
chrono = "0.4"
dirs = "6"
image = { version = "0.25", default-features = false, features = ["jpeg", "png"] }
parking_lot = "0.12"
serde = { version = "1", features = ["derive"] }
serde_json = "1"
tauri = { version = "2", default-features = false }
tokio = { version = "1", features = ["macros", "rt", "sync", "time"] }
