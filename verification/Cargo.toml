[package]
name = "ctb_web"
version = "0.1.0"
edition = "2021"
publish = false

[dependencies]
rust-argon2 = "=1.0.1"
uuid = { version = "=1.29.0", features = ["v4", "serde"] }
slotmap = "=1.1.1"
serde = { version = "=1.0.229", features = ["derive"] }
serde_json = "=1.0.154"
bincode = "=1.3.3"
flume = "=0.11.1"
tokio = { version = "=1.54.1", features = ["macros", "rt-multi-thread", "net", "time", "sync"] }
tokio-tungstenite = "=0.21.0"
futures = "=0.3.34"
sqlx = { version = "=0.7.4", default-features = false, features = ["runtime-tokio", "postgres", "uuid"] }
dotenv = "=0.15.0"
actix-web = { version = "4", default-features = false }
actix-cors = "0.7"
actix-web-httpauth = "0.8"
