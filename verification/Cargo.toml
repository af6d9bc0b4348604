[package]
name = "pocket_feeder"
version = "0.1.0"
edition = "2021"
publish = false

[dependencies]
chrono = "0.4"
serde = { version = "1", features = ["derive"] }
serde_json = "1"
serde_yaml = "0.9"
serde-xml-rs = "*"
reqwest = { version = "0.12", default-features = false, features = ["blocking", "json", "rustls-tls"] }
webbrowser = "*"
sentry = { version = "*", default-features = false, features = ["backtrace", "contexts", "panic", "reqwest", "rustls"] }
