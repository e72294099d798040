[package]
name = "places"
version = "0.1.0"
edition = "2021"
publish = false

[dependencies]
url = "=2.5.8"
thiserror = "=1.0.69"
serde_json = "=1.0.154"
parking_lot = "=0.12.5"
rusqlite = { version = "=0.41.0", features = ["bundled"] }
serde = { version = "1", features = ["derive"] }
serde_yaml = "0.9"
anyhow = "1"
lazy_static = "1"
reqwest = { version = "*", default-features = false, features = ["blocking", "json"] }
regex = "1"
email_address = "*"
askama = "*"
