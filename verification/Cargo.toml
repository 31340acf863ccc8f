[package]
name = "autoasr"
version = "0.1.0"
edition = "2021"
publish = false

[dependencies]
anyhow = "1"
chrono = { version = "0.4", default-features = false, features = ["clock", "std"] }
directories = "5"
hound = "3.5"
reqwest = { version = "0.12", default-features = false, features = ["multipart", "stream", "rustls-tls"] }
serde = { version = "1", features = ["derive"] }
serde_json = "1"
tokio = { version = "1", features = ["fs", "process", "sync", "rt-multi-thread"] }
tokio-util = { version = "0.7", features = ["codec"] }
toml = "0.8"
voice_activity_detector = "0.2"
walkdir = "2"
