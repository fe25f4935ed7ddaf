[package]
name = "tuun"
version = "5.0.0"
edition = "2021"
publish = false

[dependencies]
anyhow = "1"
clap = { version = "4", features = ["derive"] }
discord-rich-presence = "*"
homedir = "*"
id3 = "1"
permitit = "*"
rustfm-scrobble = "1"
serde = { version = "1", features = ["derive"] }
serde_json = "1"
tokio = { version = "1", features = ["full"] }
toml = "*"
tracing = "0.1"
tracing-appender = "0.2"
tracing-subscriber = { version = "0.3", features = ["env-filter"] }
treats = "*"
urlencoding = "2"
