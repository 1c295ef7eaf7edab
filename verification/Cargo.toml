[package]
name = "red_hare"
version = "0.1.0"
edition = "2021"
publish = false

[dependencies]
griddle = "0.5"
serde = { version = "1", features = ["derive"] }
bincode = "1"
toml = "0.8"
axum = "0.8"
tokio = { version = "1", features = ["full"] }
tracing = "0.1"
tracing-subscriber = { version = "0.3", features = ["env-filter"] }
dotenv = "0.15"
