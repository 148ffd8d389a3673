[package]
name = "qqbot"
version = "0.1.0"
edition = "2021"
publish = false

[dependencies]
chrono = { version = "0.4", default-features = false, features = ["clock"] }
uuid = { version = "1", features = ["v4"] }
serde = { version = "1", features = ["derive"] }
serde_json = "1"
tokio = { version = "1", features = ["sync", "time", "macros", "rt"] }
futures = "0.3"
tokio-tungstenite = { version = "*", features = ["rustls-tls-webpki-roots"] }
reqwest = { version = "*", default-features = false, features = ["json", "rustls-tls"] }
tracing = "0.1"
async-trait = "0.1"
