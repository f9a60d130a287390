[package]
name = "chat_orchestrator"
version = "0.1.0"
edition = "2021"
publish = false

[dependencies]
futures = "0.3"
git2 = { version = "*", default-features = false }
nucleo-matcher = "0.3"
reqwest = { version = "0.12", default-features = false, features = ["json", "stream", "rustls-tls"] }
serde = { version = "1", features = ["derive"] }
serde_json = "1"
walkdir = "2"
