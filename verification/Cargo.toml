[package]
name = "backend"
version = "0.1.0"
edition = "2021"
publish = false

[dependencies]
fancy-regex = "=0.20.0"
actix-web = "=4.18.1"
actix-web-grants = "=4.1.2"
serde = { version = "=1.0.229", features = ["derive"] }
serde_json = { version = "=1.0.154", features = ["raw_value"] }
sqlx = { version = "=0.8.6", default-features = false, features = ["runtime-tokio", "postgres", "uuid", "json", "derive"] }
uuid = { version = "=1.29.1", features = ["serde", "v4"] }
jsonwebtoken = "=9.3.1"
futures-util = "=0.3.34"
clap = { version = "=4.6.7", features = ["derive", "env"] }
dotenvy = "=0.15.7"
tracing = "=0.1.44"
tracing-subscriber = "=0.3.23"
derive_more = { version = "=1.0.0", features = ["display"] }
ring = "=0.17.14"
