[package]
name = "url_uploader"
version = "0.1.0"
edition = "2021"
publish = false

[dependencies]
anyhow = "1"
async-read-progress = "*"
bytes = "1"
bytesize = "1"
chrono = "0.4"
dashmap = "*"
dotenv = "0.15"
futures = "0.3"
grammers-client = { version = "0.7", features = ["html"] }
grammers-mtsender = "0.7"
grammers-session = "0.7"
log = "0.4"
mime_guess = "2"
percent-encoding = "2"
reqwest = { version = "0.12", default-features = false, features = ["rustls-tls", "stream"] }
scopeguard = "1"
simplelog = "0.12"
stream-cancel = "0.8"
tokio = { version = "1", features = ["full"] }
tokio-util = { version = "0.7", features = ["compat"] }
