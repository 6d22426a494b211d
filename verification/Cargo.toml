[package]
name = "blocktxt"
version = "0.1.0"
edition = "2021"
publish = false

[dependencies]
rand = "0.9"
anyhow = "1"
clap = { version = "4", features = ["derive"] }
crossterm = "0.28"
ratatui = "0.29"
directories = "5"
nix = { version = "0.29", features = ["user", "signal"] }
serde = { version = "1", features = ["derive"] }
serde_json = "1"
signal-hook = "0.3"
tempfile = "3"
thiserror = "1"

[dev-dependencies]
rand_chacha = "0.9"
