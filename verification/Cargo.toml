[package]
name = "natural_nails"
version = "0.1.0"
edition = "2021"
publish = false

[dependencies]
rusqlite = { version = "*", features = ["bundled"] }
actix-web = "*"
actix-rt = "*"
dotenv = "*"
env_logger = "*"
listenfd = "*"
log = "*"
serde = { version = "*", features = ["derive"] }
serde_json = "*"
