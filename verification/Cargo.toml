[package]
name = "ytmusicdw"
version = "0.1.0"
edition = "2021"
publish = false

[dependencies]
anyhow = "1"
crossterm = "0.28"
hound = "3.5"
ratatui = "0.29"
serde = { version = "1", features = ["derive"] }
serde_json = "1"
