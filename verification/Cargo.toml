[package]
name = "gear_editor"
version = "0.1.0"
edition = "2021"
publish = false

[dependencies]
rand = "=0.8.8"
rsa = "=0.9.10"
base64 = "=0.22.1"
password-hash = "=0.5.0"
pbkdf2 = { version = "=0.12.2", features = ["simple"] }
bcrypt = "*"
serde = { version = "=1.0.229", features = ["derive"] }
serde_json = "=1.0.154"
toml = "=0.8.23"
chrono = "=0.4.45"
axum = { version = "=0.7.9", features = ["multipart"] }
tokio = { version = "=1.54.1", features = ["full"] }
tokio-util = { version = "=0.7.20", features = ["io"] }
tower-http = { version = "=0.5.2", features = ["compression-full"] }
futures-util = "=0.3.34"
fs2 = "=0.4.3"
reqwest = { version = "=0.12.28", default-features = false, features = ["json"] }
rusqlite = { version = "=0.31.0", features = ["bundled"] }
