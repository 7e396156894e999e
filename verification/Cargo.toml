[package]
name = "gnezdo"
version = "0.1.0"
edition = "2021"
publish = false

[dependencies]
anyhow = "1"
chrono = "0.4"
headless_chrome = "*"
nanorand = "0.7"
scraper = "*"
serde = { version = "1", features = ["derive"] }
serde_json = "1"
toml = "*"
