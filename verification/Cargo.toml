[package]
name = "ship"
version = "0.1.0"
edition = "2021"
publish = false

[dependencies]
anyhow = "1"
chrono = "0.4"
clap = { version = "4", features = ["derive"] }
crossterm = "*"
directories = "*"
hex = "0.4"
ratatui = "*"
serde = { version = "1", features = ["derive"] }
serde_json = "1"
strum = { version = "*", features = ["derive"] }
thiserror = "*"
tokio = { version = "1", features = ["full"] }
