[package]
name = "traxat"
version = "0.1.0"
edition = "2021"
publish = false

[dependencies]
anyhow = "1"
chrono = "0.4"
clap = "2.33"
fern = { version = "0.6", features = ["colored"] }
log = "0.4"
rppal = "*"
rusqlite = "*"
tokio = { version = "1", features = ["macros", "rt-multi-thread", "net", "io-util", "sync"] }
