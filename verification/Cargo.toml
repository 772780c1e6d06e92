[package]
name = "tempo_bot"
version = "0.1.0"
edition = "2021"
publish = false

[dependencies]
anyhow = "1"
chrono = { version = "0.4", features = ["unstable-locales"] }
clap = { version = "4", features = ["derive"] }
dotenv = "0.15"
env_logger = "0.11"
log = "0.4"
reqwest = { version = "0.12", features = ["json"] }
rumqttc = "0.24"
serde_json = "1"
tokio = { version = "1", features = ["macros", "rt-multi-thread", "time"] }
