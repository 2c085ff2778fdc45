[package]
name = "velo_hub"
version = "0.1.0"
edition = "2021"
publish = false

[dependencies]
rand = "0.8"
dashmap = "6"
uuid = { version = "1", features = ["v4"] }
chrono = "0.4"
dirs = "5"
serde = { version = "1", features = ["derive"] }
serde_json = "1"
toml = "0.8"
tokio = { version = "1", features = ["full"] }
axum = "0.7"
tower-http = { version = "0.5", features = ["cors", "trace"] }
futures = "0.3"
sqlx = { version = "0.8", default-features = false, features = ["runtime-tokio", "sqlite", "macros"] }
reqwest = { version = "0.12", default-features = false, features = ["json"] }
tracing = "0.1"
tracing-subscriber = { version = "0.3", features = ["env-filter", "fmt"] }
tracing-appender = "0.2"
thiserror = "1"
async-trait = "0.1"
validator = { version = "0.18", features = ["derive"] }
ring = "0.17"
base64 = "0.22"
once_cell = "1"
keyring = "3"
