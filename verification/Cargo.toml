[package]
name = "key_agent"
version = "0.1.0"
edition = "2021"
publish = false

[dependencies]
anyhow = "=1.0.104"
futures = "=0.3.34"
pbkdf2 = "=0.12.2"
rusqlite = "=0.41.0"
russh-keys = "=0.38.0"
sha2 = "=0.10.9"
tokio = { version = "=1.54.1", features = ["fs", "io-util", "net", "rt-multi-thread", "sync", "time"] }
