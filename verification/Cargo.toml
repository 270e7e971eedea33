[package]
name = "down_on_spot"
version = "0.1.0"
edition = "2021"
publish = false

[dependencies]
aspotify = "0.7"
async-std = "1"
async-stream = "0.3"
base64 = "0.21"
chrono = "0.4"
clap = { version = "4", features = ["derive", "cargo"] }
colored = "2"
env_logger = "0.10"
futures = "0.3"
id3 = "1"
lame = "0.1"
lewton = "0.10"
librespot = { version = "0.4.2", default-features = false }
log = "0.4"
oggvorbismeta = "0.1"
reqwest = { version = "0.11", default-features = false, features = ["rustls-tls"] }
sanitize-filename = "0.4"
serde = { version = "1", features = ["derive"] }
serde_json = "1"
tokio = { version = "1", features = ["full"] }
url = "2"
