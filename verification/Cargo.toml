[package]
name = "binaris"
version = "0.1.0"
edition = "2021"
publish = false

[dependencies]
regex = "1"
infer = "0"
zip = { version = ">=0.6", default-features = false }
md-5 = "0.10"
sha1 = "0.10"
sha2 = "0.10"
sha3 = "0.10"
blake3 = "1"
hex = "0.4"
goblin = "0.8"
capstone = "0.12"
uuid = { version = "1", features = ["v7"] }
url = "2"
argon2 = "0.5"
jsonwebtoken = "9"
rand = "0.8"
chrono = "0.4"
serde = { version = "1", features = ["derive"] }
serde_json = "1"
clap = { version = "4", features = ["derive", "env"] }
tokio = { version = "1", features = ["full"] }
axum = { version = "0.8", features = ["multipart", "ws"] }
tower-http = { version = "0.6", features = ["cors", "trace"] }
anyhow = "1"
tracing = "0.1"
tracing-subscriber = { version = "0.3", features = ["env-filter", "json"] }
reqwest = { version = "0.12", default-features = false, features = ["json", "multipart"] }
