[package]
name = "distance_db_populator"
version = "0.1.0"
edition = "2021"
publish = false

[dependencies]
fxhash = "=0.2.1"
anyhow = "*"
futures = "*"
tokio = { version = "*", features = ["rt", "macros"] }
tokio-postgres = "*"
reqwest = { version = "=0.13.5", default-features = false, features = ["json", "query"] }
serde = { version = "*", features = ["derive"] }
serde_json = "*"
serde_with = "*"
dotenv = "*"
