[package]
name = "side_panel_right"
version = "0.1.0"
edition = "2021"
publish = false

[dependencies]
serde = { version = "=1.0.229", features = ["derive"] }
toml = "=0.8.23"
dirs = "=5.0.1"
inotify = "=0.11.5"
chrono = "0.4"
