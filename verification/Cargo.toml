[package]
name = "movo_core"
version = "0.1.0"
edition = "2021"
publish = false

[dependencies]
base64 = "0.22"
chrono = "0.4"
directories = "5"
hex = "0.4"
jni = "0.21"
keyring = "3"
log = "0.4"
regex = "1"
reqwest = { version = "0.12", default-features = false, features = ["rustls-tls", "cookies", "multipart", "gzip", "brotli"] }
scraper = "0.20"
serde = { version = "1", features = ["derive"] }
serde_json = "1"
sha2 = "0.10"
tokio = { version = "1", features = ["rt-multi-thread", "macros", "time", "sync"] }
url = "2"
