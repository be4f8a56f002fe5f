[package]
name = "fastdb"
version = "0.1.0"
edition = "2021"
publish = false

[dependencies]
rusqlite = { version = "=0.41.0", features = ["bundled"] }
tokio-postgres = "=0.7.18"
deadpool-postgres = "=0.14.2"
deadpool = "=0.13.1"
tokio = { version = "=1.54.1", features = ["rt-multi-thread", "macros", "fs", "io-util", "sync", "time"] }
bytes = "=1.12.1"
futures-util = { version = "=0.3.34", features = ["sink"] }
chrono = "=0.4.45"
uuid = { version = "=1.29.0", features = ["v4"] }
serde = { version = "=1.0.229", features = ["derive"] }
serde_json = "=1.0.154"
once_cell = "=1.21.4"
dirs = "=7.0.0"
