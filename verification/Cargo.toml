[package]
name = "survon"
version = "0.1.0"
edition = "2021"
publish = false

[dependencies]
serde = { version = "=1.0.229", features = ["derive"] }
serde_json = "=1.0.154"
md-5 = "=0.10.6"
chrono = "=0.4.45"
rand = "=0.8.8"
uuid = "=1.29.0"
tokio = { version = "=1.54.1", features = ["full"] }
tokio-serial = "=5.5.0"
reqwest = { version = "=0.12.28", default-features = false, features = ["json", "rustls-tls"] }
rusqlite = { version = "=0.31.0", features = ["bundled"] }
color-eyre = "=0.6.5"
futures = "=0.3.34"
serde_yaml = "=0.9.34"
lazy_static = "=1.5.1"
gag = "=1.0.0"
ratatui = "0.29"
