[package]
name = "ratgreet"
version = "0.1.0"
edition = "2021"
publish = false

[dependencies]
zeroize = "1"
chrono = "0.4"
ratatui = "*"
rust-ini = "*"
toml = "*"
serde = { version = "1", features = ["derive"] }
clap = { version = "4", features = ["derive"] }
tokio = { version = "1", features = ["full"] }
crossterm = { version = "*", features = ["event-stream"] }
futures-util = "0.3"
greetd_ipc = { version = "*", features = ["tokio-codec"] }
rustix = { version = "*", features = ["system"] }
tracing = "0.1"
tracing-appender = "0.2"
tracing-subscriber = "0.3"
thiserror = "*"
