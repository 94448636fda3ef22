[package]
name = "feedragon"
version = "0.1.0"
edition = "2021"
publish = false

[dependencies]
actix-web = { version = "=4.18.1", default-features = false, features = ["macros"] }
anyhow = "=1.0.104"
base64 = "=0.13.1"
chrono = "=0.4.45"
env_logger = "=0.9.3"
futures = "=0.3.34"
log = "=0.4.34"
reqwest = "=0.11.27"
scraper = "=0.13.0"
serde = "=1.0.229"
serde_derive = "=1.0.229"
toml = "=0.5.11"
url = "=2.5.8"
yaserde = "=0.8.0"
yaserde_derive = "=0.8.0"
