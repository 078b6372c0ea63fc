[package]
name = "product_catalog"
version = "0.1.0"
edition = "2021"
publish = false

[dependencies]
actix-web = "*"
env_logger = "*"
r2d2 = "*"
r2d2-sqlite3 = "*"
serde = { version = "*", features = ["derive"] }
sqlite3 = "*"
