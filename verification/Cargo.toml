[package]
name = "sql_engine"
version = "0.1.0"
edition = "2021"
publish = false

[dependencies]
sqlparser = "0.35"
serde = { version = "1", features = ["derive"] }
serde_json = "1"
tokio = { version = "1", features = ["rt-multi-thread", "macros", "net", "io-util"] }
