[package]
name = "vibi_core"
version = "0.1.0"
edition = "2021"
publish = false

[dependencies]
ring = "0.17"
regex = "1"
uuid = { version = "1", features = ["v4"] }
chrono = "0.4"
serde = { version = "1", features = ["derive"] }
serde_json = "1"
dirs = "5"
reqwest = { version = "0.11", default-features = false, features = ["blocking", "json", "rustls-tls"] }
sysinfo = "0.29"
tungstenite = "0.20"
