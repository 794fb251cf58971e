[package]
name = "revisit_scheduler"
version = "0.1.0"
edition = "2021"
publish = false

[dependencies]
iso8601-duration = "=0.2.0"
rand = "=0.8.8"
rusqlite = { version = "=0.40.2", features = ["fallible_uint"] }
open = "=5.4.5"
serde = { version = "=1.0.229", features = ["derive"] }
serde_json = "=1.0.154"
