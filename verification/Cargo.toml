[package]
name = "pick_up_sound_text"
version = "0.1.0"
edition = "2021"
publish = false

[dependencies]
aes-gcm = "0.10"
argon2 = "0.5"
base64 = "0.22"
rand = "0.8"
hmac = "0.12"
sha1 = "0.10"
md5 = "0.7"
urlencoding = "2"
chrono = "0.4"
serde = { version = "1", features = ["derive"] }
serde_json = "1"
tokio = { version = "1", features = ["rt-multi-thread", "macros", "sync", "process", "net"] }
reqwest = { version = "0.12", default-features = false, features = ["json"] }
tokio-tungstenite = "0.24"
futures-util = { version = "0.3", features = ["sink"] }
uuid = { version = "1", features = ["v4"] }
async-trait = "0.1"
dirs = "5"
tracing = "0.1"
tracing-subscriber = "0.3"
