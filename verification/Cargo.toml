[package]
name = "zst_webapp_scrapper"
version = "0.1.0"
edition = "2021"
publish = false

[dependencies]
scraper = "*"
reqwest = { version = "0.12", default-features = false, features = ["json", "rustls-tls"] }
serde = { version = "1", features = ["derive"] }
serde_json = "1"
actix-web = "4"
actix-cors = "0.7"
env_logger = "0.11"
log = "0.4"
sqlx = { version = "0.8", default-features = false, features = ["sqlite", "runtime-tokio"] }
