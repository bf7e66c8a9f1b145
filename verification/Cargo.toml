[package]
name = "kokoro"
version = "0.1.0"
edition = "2021"
publish = false
rust-version = "1.95"

[dependencies]
async-trait = "0.1"
base64 = "0.22"
bytes = "1"
chrono = "0.4"
dirs-next = "2"
futures = "0.3"
hmac = "0.12"
reqwest = { version = "0.12", default-features = false, features = ["json", "multipart", "stream"] }
serde = { version = "1", features = ["derive"] }
serde_json = "1"
sha2 = "0.10"
sqlx = { version = "0.8", default-features = false, features = ["runtime-tokio", "sqlite", "macros"] }
takecell = "<0.1.2"
teloxide = { version = "0.13", default-features = false, features = ["macros"] }
tokio = { version = "1", features = ["full"] }
tokio-tungstenite = "0.24"
tracing = "0.1"
uuid = { version = "1", features = ["v4"] }
warp = "0.3"
