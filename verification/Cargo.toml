[package]
name = "vibi_dpu"
version = "0.1.0"
edition = "2021"
publish = false

[dependencies]
chrono = "*"
jsonwebtoken = "*"
log = "*"
reqwest = { version = "*", default-features = false, features = ["json", "rustls-tls"] }
serde = { version = "*", features = ["derive"] }
serde_json = "*"
sled = "*"
tokio = { version = "*", features = ["rt-multi-thread", "macros", "time"] }
uuid = { version = "*", features = ["v4"] }
