[package]
name = "focus_hotkey"
version = "0.1.0"
edition = "2021"
publish = false

[dependencies]
tokio = { version = "*", features = ["fs", "rt", "sync"] }
x11rb = "*"
nix = { version = "*", features = ["poll"] }
tracing = "*"

[dev-dependencies]
tempfile = "*"
