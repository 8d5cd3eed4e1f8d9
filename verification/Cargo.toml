[package]
name = "nostr_search"
version = "0.1.0"
edition = "2021"
publish = false

[dependencies]
actix = "=0.13.5"
anyhow = "=1.0.104"
hex = "=0.4.3"
reqwest = { version = "=0.12.28", features = ["json", "rustls-tls"], default-features = false }
serde = { version = "=1.0.229", features = ["derive"] }
serde_json = "=1.0.154"
tracing = "=0.1.44"
ureq = { version = "=3.5.1", features = ["json"] }
urlencoding = "=2.1.3"
