[package]
name = "keres_engine"
version = "0.1.0"
edition = "2021"
publish = false

[dependencies]
num_cpus = "1"
rand = "0.8"
serde = { version = "1", features = ["derive"] }
serde_json = "1"
base64 = "0.22"
clap = { version = "4", features = ["derive"] }
axum = "0.7"
tokio = { version = "1", features = ["macros", "rt-multi-thread", "net"] }
tower-http = { version = "0.5", features = ["cors"] }
crossterm = "0.28"
ratatui = "0.29"
ahash = "0.8"
