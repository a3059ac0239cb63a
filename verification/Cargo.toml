[package]
name = "spielerplus_sync"
version = "0.1.0"
edition = "2021"
publish = false

[dependencies]
chrono = "=0.4.45"
log = "=0.4.34"
reqwest = { version = "=0.12.28", default-features = false, features = ["blocking", "cookies", "json", "rustls-tls"] }
scraper = "=0.27.0"
serde = { version = "=1.0.229", features = ["derive"] }
serde_json = "=1.0.151"
