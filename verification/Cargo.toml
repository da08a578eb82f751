[package]
name = "orgflow"
version = "0.1.0"
edition = "2021"
publish = false

[dependencies]
chrono = "0.4"
uuid = { version = "1", features = ["v4"] }
serde = { version = "1", features = ["derive"] }
serde_json = "1"
ratatui = "0.29"
tui-textarea = "0.7"
config = { version = "0.15", default-features = false, features = ["toml"] }
