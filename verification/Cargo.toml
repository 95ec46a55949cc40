[package]
name = "rrrdb"
version = "0.1.0"
edition = "2021"
publish = false

[dependencies]
rocksdb = "*"
serde = { version = "1", features = ["derive"] }
serde_json = "1"
