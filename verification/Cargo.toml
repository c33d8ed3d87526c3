[package]
name = "homeassistant-tui"
version = "0.1.0"
edition = "2021"
publish = false

[dependencies]
chrono = { version = "=0.4.45", features = ["serde"] }
clap = { version = "=4.6.7", features = ["derive", "env"] }
color-eyre = "=0.6.5"
crossterm = { version = "=0.28.1", features = ["event-stream"] }
directories = "=6.0.0"
futures = "=0.3.34"
nucleo-matcher = "=0.3.1"
ratatui = "=0.29.0"
rustls = { version = "=0.23.46", default-features = false, features = ["ring", "std", "tls12"] }
serde = { version = "=1.0.229", features = ["derive"] }
serde_json = "=1.0.154"
tokio = { version = "=1.54.1", features = ["macros", "net", "rt-multi-thread", "sync", "time"] }
tokio-tungstenite = { version = "=0.26.2", features = ["rustls-tls-webpki-roots"] }
toml = "=0.8.23"
