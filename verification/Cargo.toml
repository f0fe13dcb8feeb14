[package]
name = "chromia"
version = "0.1.0"
edition = "2021"
publish = false

[dependencies]
serde_json = "*"
urlencoding = "*"
dirs = "*"
serde = { version = "*", features = ["derive"] }
toml = "*"
anyhow = "*"
chrono = "*"
tracing = "*"
tracing-subscriber = { version = "*", features = ["env-filter"] }
parking_lot = "*"
tokio = { version = "*", features = ["rt-multi-thread", "macros", "process", "sync", "time", "fs", "io-util"] }
reqwest = { version = "0.12", default-features = false, features = ["json", "rustls-tls"] }
rusqlite = { version = "*", features = ["bundled"] }
lofty = "*"
image = { version = "*", default-features = false, features = ["png", "jpeg", "webp"] }
color-thief = "*"
rodio = "0.20"
notify = "*"
zbus = "*"
discord-presence = "*"
