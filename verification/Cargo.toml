[package]
name = "kucoin_core"
version = "0.1.0"
edition = "2021"
publish = false

[dependencies]
base64 = "0.22"
hmac = "0.12"
sha2 = "0.10"
serde = { version = "1", features = ["derive"] }
serde_json = "1"
reqwest = { version = "0.12", features = ["json"] }
tokio = { version = "1", features = ["full"] }
tokio-tungstenite = { version = "0.24", features = ["native-tls"] }
futures-util = "0.3"
log = "0.4"
env_logger = "0.11"
dotenv = "0.15"
sqlx = { version = "0.8", features = ["postgres", "runtime-tokio"] }
tokio-cron-scheduler = "*"
