[package]
name = "personal_mail_client"
version = "0.1.0"
edition = "2021"
publish = false

[dependencies]
aes-gcm = "0.10"
base64 = "0.21"
chrono = "0.4"
hex = "0.4"
imap = "2.4"
imap-proto = "0.10"
native-tls = "0.2"
once_cell = "1"
parking_lot = "0.12"
rand = "0.8"
rusqlite = { version = "0.29", features = ["bundled"] }
secrecy = "0.8"
serde = { version = "1", features = ["derive"] }
serde_json = "1"
sha2 = "0.10"
thiserror = "1"
tokio = { version = "1", features = ["rt-multi-thread", "sync", "time", "macros"] }
tokio-util = "0.7"
tracing = "0.1"
tracing-subscriber = { version = "0.3", features = ["env-filter"] }
uuid = { version = "1", features = ["v4"] }
