[package]
name = "niri_taskbar"
version = "0.1.0"
edition = "2021"
publish = false

[dependencies]
futures = "0.3"
tracing = "0.1"
tracing-subscriber = { version = "0.3", features = ["env-filter"] }
waybar-cffi = "*"
