[package]
name = "easydb"
version = "0.1.0"
edition = "2021"
publish = false

[dependencies]
sqlparser = "=0.53.0"
chrono = "=0.4.45"
calamine = { version = "=0.30.1", features = ["dates"] }
glob = "=0.3.4"
arrow-array = "=59.3.1"
arrow-schema = "=59.3.1"
arrow-cast = "=59.3.1"
tokio = { version = "=1.54.1", features = ["rt-multi-thread"] }
serde = { version = "=1.0.229", features = ["derive"] }
