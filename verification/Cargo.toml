[package]
name = "identity_search"
version = "0.1.0"
edition = "2021"
publish = false

[dependencies]
anyhow = "*"
actix-cors = "*"
actix-web = "*"
csv = "*"
serde = { version = "*", features = ["derive"] }
serde_json = "*"
tantivy = "*"
tokio = { version = "*", features = ["rt-multi-thread"] }
