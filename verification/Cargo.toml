[package]
name = "tabra"
version = "0.1.0"
edition = "2021"
publish = false

[dependencies]
anyhow = "1"
base64 = "0.22"
clap = { version = "4", features = ["derive"] }
crossterm = "0.28"
dirs = "5"
libc = "0.2"
nix = { version = "0.29", features = ["term", "fs", "process", "ioctl", "signal"] }
notify = "6"
nucleo = "0.5"
scopeguard = "1"
serde = { version = "1", features = ["derive"] }
serde_json = "1"
tokio = { version = "1", features = ["full"] }
tracing = "0.1"
tracing-subscriber = { version = "0.3", features = ["env-filter", "fmt"] }
