[package]
name = "omnikit"
version = "0.1.0"
edition = "2021"
publish = false

[dependencies]
regex = "1"
serde_json = "1"
serde = { version = "1", features = ["derive"] }
reqwest = { version = "*", features = ["json", "stream"] }
tokio = { version = "1", features = ["full"] }
tokio-util = "*"
futures-util = "*"
axum = "*"
tower-http = { version = "*", features = ["cors"] }
sqlx = { version = "*", default-features = false, features = ["runtime-tokio", "sqlite"] }
chrono = "*"
uuid = { version = "1", features = ["v4"] }
dirs = "*"
log = "*"
env_logger = "*"
async-trait = "*"
