[package]
name = "voice_pipeline"
version = "0.1.0"
edition = "2021"
publish = false

[dependencies]
url = "=2.5.8"
reqwest = { version = "*", default-features = false }
tokio = { version = "*", features = ["rt", "rt-multi-thread", "macros"] }
cpal = "*"
rodio = { version = "*", default-features = false, features = ["wav"] }
