[package]
name = "ai_router"
version = "0.1.0"
edition = "2021"
publish = false

[dependencies]
anyhow = "=1.0.104"
async-stream = "=0.3.6"
axum = { version = "=0.7.9", features = ["multipart"] }
bytes = "=1.12.1"
clap = { version = "=4.6.7", features = ["derive"] }
figment = { version = "=0.10.19", features = ["toml", "env"] }
fon = "=0.6.0"
minijinja = { version = "=2.24.0", features = ["loader"] }
openai_dive = { version = "=0.4.9", features = ["stream"] }
prost = "=0.13.5"
serde = { version = "=1.0.229", features = ["derive"] }
serde_json = "=1.0.154"
tokenizers = { version = "=0.23.2", features = ["http"] }
tokio = { version = "=1.54.1", features = ["full"] }
toml = "=0.8.23"
tonic = "=0.12.3"
uuid = { version = "=1.29.0", features = ["v4"] }
wavers = "=1.5.1"
