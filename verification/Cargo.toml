[package]
name = "take_it_easy_core"
version = "0.1.0"
edition = "2021"
publish = false

[dependencies]
jsonwebtoken = "=9.3.1"
serde = { version = "=1.0.229", features = ["derive"] }
serde_json = { version = "=1.0.154", features = ["preserve_order"] }
base64 = "=0.22.1"
getrandom = "=0.2.17"
oauth2 = { version = "=4.4.2", default-features = false, features = ["reqwest", "rustls-tls"] }
reqwest = { version = "=0.11.27", default-features = false, features = ["json", "rustls-tls"] }
axum = "=0.7.9"
tokio = { version = "=1.54.1", features = ["rt-multi-thread", "macros"] }
tonic = "=0.12.3"
lettre = { version = "=0.11.23", default-features = false, features = ["builder", "smtp-transport", "tokio1", "tokio1-rustls-tls"] }
rusqlite = { version = "=0.31.0", features = ["bundled"] }
chrono = "=0.4.45"
uuid = { version = "=1.29.0", features = ["v4"] }
log = "=0.4.35"
csv = "=1.4.0"
rand = "=0.8.8"
