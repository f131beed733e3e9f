[package]
name = "nucleus-http"
version = "0.1.0"
edition = "2021"
publish = false

[dependencies]
anyhow = "1"
async-trait = "0.1"
base64 = "0.21"
bytes = "1"
enum-map = "2"
futures = "0.3"
hmac = "0.12"
log = "0.4"
memchr = "2"
rand = "0.8"
rustls-acme = "0.7"
rustls-pemfile = "1"
secrecy = "0.8"
serde = { version = "1", features = ["derive"] }
serde_json = "1"
sha2 = "0.10"
tokio = { version = "1", features = ["full"] }
tokio-rustls = "0.24"
tokio-util = "0.7"
tracing = "0.1"
