[package]
name = "codex_logic"
version = "0.1.0"
edition = "2021"
publish = false

[dependencies]
anyhow = "1"
clap = { version = "4", features = ["derive"] }
pulldown-cmark = { version = "0.10", default-features = false }
ratatui = { version = "0.29", default-features = false }
serde_json = "1"
tokio = { version = "1", features = ["macros", "rt", "time"] }
tokio-util = "0.7"
toml = "0.9"
unicode-width = "0.2"
