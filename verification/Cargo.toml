[package]
name = "mercury"
version = "0.1.0"
edition = "2021"
publish = false

[dependencies]
anyhow = "1"
crossterm = "0.28"
futures = "0.3"
irc = { version = "1", default-features = false, features = ["ctcp", "tls-rust", "channel-lists"] }
ratatui = { version = "0.29", features = ["unstable-rendered-line-info"] }
thiserror = "2"
tokio = { version = "1", features = ["macros", "rt-multi-thread", "time"] }
tracing = "0.1"
tracing-subscriber = { version = "0.3", features = ["env-filter"] }
