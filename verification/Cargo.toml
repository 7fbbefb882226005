[package]
name = "piclr"
version = "0.1.0"
edition = "2021"
publish = false

[dependencies]
urlencoding = "2"
axum = "0.8"
tokio = { version = "1", features = ["full"] }
tracing = "0.1"
tracing-subscriber = { version = "0.3", features = ["env-filter"] }
clap = { version = "4", features = ["derive"] }
serde = { version = "1", features = ["derive"] }
serde_json = "1"
datastar = { version = "*", features = ["axum"] }
asynk-strim = "*"
bytes = "1"
mime_guess = "2"
walkdir = "2"
