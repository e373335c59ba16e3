[package]
name = "mesagrid_core"
version = "0.1.0"
edition = "2021"
publish = false

[dependencies]
chrono = { version = "0.4", features = ["serde"] }
keyring = "3"
parking_lot = "0.12"
serde = { version = "1", features = ["derive"] }
serde_json = "1"
sqlx = { version = "0.8", default-features = false, features = ["postgres", "mysql", "runtime-tokio"] }
thiserror = "2"
uuid = { version = "1", features = ["v4"] }
