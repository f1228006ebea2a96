[package]
name = "midkb_bind"
version = "0.1.0"
edition = "2021"
publish = false

[dependencies]
midi-msg = "*"
midir = "*"
mouse-keyboard-input = "*"
serde = { version = "*", features = ["derive"] }
tokio = { version = "*", features = ["rt-multi-thread", "macros", "signal"] }
toml = "*"
tracing = "*"
tracing-subscriber = { version = "*", features = ["env-filter"] }
