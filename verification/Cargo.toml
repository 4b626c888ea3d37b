[package]
name = "freecaster_grid"
version = "0.1.0"
edition = "2021"
publish = false

[dependencies]
anyhow = "=1.0.104"
chrono = { version = "=0.4.45", features = ["serde"] }
dotenvy = "=0.15.7"
env_logger = "=0.11.11"
humantime = "=2.4.0"
humantime-serde = "=1.1.1"
log = "*"
rand = "=0.10.3"
reqwest = { version = "=0.12.28", default-features = false, features = ["rustls-tls", "json"] }
rouille = { version = "=3.6.2", features = ["rustls"] }
schemars = "=1.2.2"
serde = { version = "=1.0.229", features = ["derive"] }
serde_json = "=1.0.151"
serde_norway = "=0.9.42"
telegram_notifyrs = "=0.1.3"
tokio = { version = "=1.53.2", features = ["full"] }
