[package]
name = "osvwm"
version = "0.1.0"
edition = "2021"
publish = false

[dependencies]
tiny-skia = "0.11"
fuzzy-matcher = "0.3"
anyhow = "1"
serde = { version = "1", features = ["derive"] }
serde_json = "1"
clap = { version = "4", features = ["derive"] }
tracing = "0.1"
tracing-subscriber = "0.3"
chrono = "0.4"
shellexpand = "3"
dirs = "5"
whoami = "1"
libc = "0.2"
nix = { version = "0.29", features = ["fs"] }
