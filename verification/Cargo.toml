[package]
name = "hkmu_ole_attendance"
version = "0.1.0"
edition = "2021"
publish = false

[dependencies]
base64 = "0.22"
jiff = { version = "0.2", features = ["tzdb-bundle-always"] }
url = "2"
reqwest = { version = "0.12", default-features = false, features = ["rustls-tls", "json"] }
serde = { version = "1", features = ["derive"] }
serde_json = "1"
tokio = { version = "1", features = ["rt-multi-thread", "macros", "time", "sync"] }
tracing = "0.1"
tracing-subscriber = { version = "0.3", features = ["env-filter"] }
clap = { version = "4", features = ["derive"] }
dotenvy = "0.15"
anyhow = "1"
thiserror = "2"
