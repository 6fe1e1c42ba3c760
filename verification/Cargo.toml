[package]
name = "oscquery"
version = "0.1.0"
edition = "2021"
publish = false

[dependencies]
log = "0.4"
mdns-sd = "*"
reqwest = { version = "0.11", default-features = false, features = ["blocking"] }
serde = { version = "1", features = ["derive"] }
serde_json = "1"
thiserror = "1"
tokio = { version = "1", features = ["rt-multi-thread", "net", "sync"] }
