[package]
name = "thornychat_ui"
version = "0.1.0"
edition = "2021"
publish = false

[dependencies]
anyhow = "1"
arboard = { version = "3", default-features = false }
chrono = "=0.4.45"
emojis = "=0.9.1"
iced = { version = "=0.14.0", default-features = false, features = ["advanced", "image-without-codecs", "selector", "svg", "tiny-skia", "tokio", "x11"] }
linkify = "=0.10.0"
mime_guess = "=2.0.5"
open = "5"
reqwest = { version = "0.12", default-features = false, features = ["json"] }
serde = { version = "1", features = ["derive"] }
serde_json = "1"
tokio = { version = "1", features = ["rt", "fs", "sync", "time", "macros"] }
tracing = "0.1"
uuid = { version = "=1.29.0", features = ["v4"] }
zeroize = "1"
