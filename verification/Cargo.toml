[package]
name = "hyprsechy"
version = "0.1.0"
edition = "2021"
publish = false

[dependencies]
serde = { version = "1", features = ["derive"] }
serde_json = "1"
toml = "0.8"
dirs = "5"
freedesktop-desktop-entry = "0.5"
tokio = { version = "1", features = ["full"] }
tracing = "0.1"
tracing-subscriber = "0.3"
clap = { version = "4", features = ["derive"] }
crossterm = "0.28"
ratatui = "0.29"
thiserror = "1"
anyhow = "1"
