[package]
name = "setboy"
version = "0.1.0"
edition = "2021"
publish = false

[dependencies]
color-eyre = "0.6"
crossterm = { version = "0.28", features = ["event-stream"] }
dotenvy = "0.15"
futures = "0.3"
genai = "*"
ratatui = "0.29"
serde = { version = "1", features = ["derive"] }
serde_with = "3"
smart-default = "0.7"
textwrap = "0.16"
tokio = { version = "1", features = ["full"] }
tokio-stream = "0.1"
toml = "0.8"
tracing = "0.1"
tracing-appender = "0.2"
tracing-subscriber = "0.3"
tui-textarea = "0.7"
unicode-width = "0.2"
uuid = { version = "1", features = ["v7", "serde"] }
