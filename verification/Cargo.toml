[package]
name = "webhook_server"
version = "0.1.0"
edition = "2021"
publish = false

[dependencies]
actix = "=0.13.5"
actix-web = { version = "=4.18.1", default-features = false, features = ["macros", "ws"] }
actix-web-actors = "=4.3.1"
actix-web-prom = "=0.10.0"
dotenv = "=0.15.0"
env_logger = "=0.11.11"
hex = "=0.4.3"
hmac = "=0.12.1"
lazy_static = "=1.5.1"
prometheus = "=0.14.0"
serde = { version = "=1.0.229", features = ["derive"] }
serde_json = "=1.0.154"
sha2 = "=0.10.9"
