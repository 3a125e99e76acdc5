[package]
name = "saltnitor"
version = "0.1.0"
edition = "2021"
publish = false

[dependencies]
serde_json = "1"
serde = { version = "1", features = ["derive"] }
axum = "0.7"
tokio = { version = "1", features = ["full"] }
tokio-stream = "0.1"
reqwest = { version = "0.12", default-features = false, features = ["json"] }
ratatui = "0.29"
crossterm = "0.28"
sysinfo = "0.33"
chrono = "0.4"
clap = { version = "4", features = ["derive"] }
toml = "0.8"
