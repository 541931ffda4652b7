[package]
name = "voice_prompt"
version = "0.1.0"
edition = "2021"
publish = false

[dependencies]
anyhow = "1"
async-openai = "0.12"
clap = { version = "4", features = ["derive"] }
cpal = "0.15"
hound = "3.5"
tokio = { version = "1", features = ["full"] }
whisper-rs = "0.8"
