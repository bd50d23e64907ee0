[package]
name = "ftp_gateway"
version = "0.1.0"
edition = "2021"
publish = false

[dependencies]
actix-web = { version = "4", default-features = false, features = ["macros"] }
actix-cors = "0.7"
actix-rt = "2"
tokio = { version = "1", features = ["net", "io-util", "fs", "sync", "time", "macros", "rt-multi-thread"] }
sqlx = { version = "0.8", default-features = false, features = ["runtime-tokio", "postgres"] }
serde = { version = "1", features = ["derive"] }
dotenv = "0.15"
