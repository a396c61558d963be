[package]
name = "canopy"
version = "0.1.0"
edition = "2021"
publish = false

[dependencies]
ropey = "1.6"
fuzzy-matcher = "0.3.7"
serde_json = "1"
serde = { version = "1", features = ["derive"] }
anyhow = "1"
bollard = "0.17"
clap = { version = "4", features = ["derive", "env"] }
crossterm = { version = "0.28", features = ["event-stream"] }
futures-util = "0.3"
ignore = "0.4"
image = { version = "0.25", default-features = false }
libc = "0.2"
ratatui = "0.29"
reqwest = { version = "0.12", default-features = false, features = ["stream"] }
tokio = { version = "1", features = ["rt-multi-thread", "macros", "sync", "time"] }
