[package]
name = "geoforge"
version = "0.1.0"
edition = "2021"
publish = false

[dependencies]
regex = "1"
serde = { version = "1", features = ["derive"] }
serde_json = "1"
thiserror = "2"
chrono = "0.4"
clap = { version = "4", features = ["derive"] }
ctrlc = "3"
uuid = { version = "1", features = ["v4"] }
parking_lot = "0.12"
rusqlite = { version = "0.32", features = ["bundled"] }
log = "0.4"
