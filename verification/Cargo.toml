[package]
name = "spotify_tui"
version = "0.1.0"
edition = "2021"
publish = false

[dependencies]
anyhow = "1"
crossterm = "*"
dotenvy = "*"
image = { version = "*", default-features = false, features = ["png", "jpeg"] }
open = "*"
rand = "*"
ratatui = "*"
reqwest = { version = "0.12", default-features = false, features = ["json", "rustls-tls"] }
serde = { version = "1", features = ["derive"] }
serde_json = "1"
tiny_http = "*"
tokio = { version = "1", features = ["rt-multi-thread", "macros", "sync", "time"] }
urlencoding = "*"
