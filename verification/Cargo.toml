[package]
name = "image_upgrader"
version = "0.1.0"
edition = "2021"
publish = false

[dependencies]
serde_json = "1"
reqwest = { version = "0.12", features = ["json"] }
tokio = { version = "1", features = ["full"] }
tokio-postgres = "0.7"
postgres-native-tls = "0.5"
native-tls = "0.2"
anyhow = "1"
log = "0.4"
env_logger = "0.11"
dotenv = "0.15"
