[package]
name = "photo_exit"
version = "0.1.1"
edition = "2021"
publish = false

[dependencies]
kamadak-exif = "0.6"
image = { version = "0.25", default-features = false }
quick-xml = "0.31"
chrono = "0.4"
anyhow = "1"
serde = { version = "1", features = ["derive"] }
serde_json = "1"
dirs = "5"
