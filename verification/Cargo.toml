[package]
name = "swiftpan"
version = "0.1.0"
edition = "2021"
publish = false

[dependencies]
argon2 = "0.5"
base64 = "0.22"
chacha20poly1305 = "0.10"
chrono = "0.4"
rand = "0.8"
futures = "0.3"
http = "1"
once_cell = "1"
opendal = { version = "*", features = ["services-s3"] }
reqwest = { version = "0.12", default-features = false, features = ["rustls-tls-webpki-roots", "stream"] }
serde = { version = "1", features = ["derive"] }
serde_json = "1"
tokio = { version = "1", features = ["rt-multi-thread", "macros", "fs", "io-util", "time", "sync"] }
uuid = { version = "1", features = ["v4"] }
