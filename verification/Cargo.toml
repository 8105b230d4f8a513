[package]
name = "docdb_models"
version = "0.1.0"
edition = "2021"
publish = false

[dependencies]
mongodb = "2"
serde = { version = "1", features = ["derive"] }

[dev-dependencies]
serde_json = "1"
