[package]
name = "smartbc"
version = "0.1.0"
edition = "2021"
publish = false

[dependencies]
chrono = "0.4"
pinyin = "*"
serde = { version = "1", features = ["derive"] }
serde_json = "1"
rusqlite = { version = "*", features = ["bundled"] }
hound = "3"
opener = "*"
dirs = "*"
rubato = "*"
reqwest = { version = "*", features = ["blocking", "json"] }
tokio = { version = "1", features = ["rt", "time"] }
cpal = "*"
whisper-rs = "*"
