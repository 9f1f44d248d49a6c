[package]
name = "audio_player"
version = "0.1.0"
edition = "2021"
publish = false

[dependencies]
uuid = { version = "*", features = ["v4"] }
symphonia = "*"
spectrum-analyzer = "*"
serde = { version = "*", features = ["derive"] }
serde_json = "*"
rodio = "*"
