[package]
name = "rupss"
version = "0.1.0"
edition = "2021"
publish = false

[dependencies]
anyhow = "1"
compact_str = "0.8"
crossterm = "0.28"
directories = "6"
procfs = "0.17"
ratatui = "0.29"
serde = { version = "1", features = ["derive"] }
thiserror = "2"
toml = "0.8"
users = "0.11"
