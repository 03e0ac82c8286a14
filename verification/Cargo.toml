[package]
name = "wake_workbench"
version = "0.1.0"
edition = "2021"
publish = false

[dependencies]
chrono = "0.4"
image = { version = "0.25", default-features = false, features = ["png", "jpeg", "gif", "webp", "bmp", "tiff"] }
serde = { version = "1", features = ["derive"] }
serde_json = "1"
