[package]
name = "cc-hub"
version = "0.1.0"
edition = "2021"
publish = false

[dependencies]
chrono = "=0.4.45"
dirs = "=6.0.0"
image = "=0.25.10"
ratatui = { version = "=0.30.2", features = ["unstable-rendered-line-info"] }
ratatui-image = { version = "=11.1.0", default-features = false, features = ["crossterm", "image-defaults"] }
serde_json = "=1.0.154"
tui-term = "=0.3.4"
