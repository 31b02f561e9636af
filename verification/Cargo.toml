[package]
name = "chunk_transfer"
version = "0.1.0"
edition = "2021"
publish = false

[dependencies]
md5 = "*"
rand = "*"
serde_json = "*"
urlencoding = "*"
jsonwebtoken = "*"
actix-web = "*"
actix-cors = "*"
actix-files = "*"
tokio = { version = "*", features = ["rt-multi-thread", "macros", "time", "fs", "sync", "io-util"] }
futures = "*"
bytes = "*"
serde = { version = "*", features = ["derive"] }
