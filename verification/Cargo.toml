[package]
name = "knowledge_engine"
version = "0.1.0"
edition = "2021"
publish = false

[dependencies]
base64 = "*"
clap = { version = "*", features = ["derive"] }
dotenvy = "*"
pdf-extract = "*"
reqwest = { version = "*", default-features = false, features = ["json", "rustls-tls"] }
serde = { version = "*", features = ["derive"] }
serde_json = "*"
sha2 = "*"
sqlx = { version = "*", default-features = false, features = ["sqlite", "runtime-tokio", "tls-rustls", "migrate"] }
text-splitter = "*"
tokio = { version = "*", features = ["rt-multi-thread", "macros"] }
walkdir = "*"
