[package]
name = "skybox"
version = "0.1.0"
edition = "2021"
publish = false

[dependencies]
base64 = "0.22"
chrono = "0.4"
directories = "5"
dotenv = "0.15"
grammers-client = "0.8"
grammers-mtsender = "0.8"
grammers-session = "0.8"
log = "0.4"
once_cell = "1"
serde = { version = "1", features = ["derive"] }
serde_json = "1"
sqlite = "0.37"
tokio = { version = "1", features = ["full"] }
uuid = { version = "1", features = ["v4"] }
walkdir = "2"
