[package]
name = "gitpage"
version = "0.1.0"
edition = "2021"
publish = false

[dependencies]
aes-gcm = "0.10"
argon2 = "0.5"
axum = "0.7"
bollard = "0.19"
chrono = "0.4"
futures-util = "0.3"
git2 = { version = "0.19", default-features = false }
hex = "0.4"
jsonwebtoken = "9"
mime_guess = "2"
pulldown-cmark = "0.12"
rand = "0.8"
regex = "1"
reqwest = { version = "0.12", default-features = false }
rusqlite = { version = "0.31", features = ["bundled"] }
serde = { version = "1", features = ["derive"] }
serde_json = "1"
sha2 = "0.10"
tokio = { version = "1", features = ["full"] }
toml = "0.8"
tower-http = { version = "0.5", features = ["cors"] }
tracing = "0.1"
tracing-subscriber = { version = "0.3", features = ["env-filter"] }
