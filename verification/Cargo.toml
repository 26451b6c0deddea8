[package]
name = "music_uploader_client"
version = "0.1.0"
edition = "2021"
publish = false

[dependencies]
sha256 = "*"
reqwest = { version = "*", default-features = false, features = ["blocking"] }
serde = { version = "*", features = ["derive"] }
toml = "*"
clap = { version = "*", features = ["derive"] }
