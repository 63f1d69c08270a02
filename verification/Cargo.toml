[package]
name = "staff_auth"
version = "0.1.0"
edition = "2021"
publish = false

[dependencies]
rust-argon2 = "0.8"
openssl = "0.10"
validator = "0.16"
actix-web = { version = "4", default-features = false, features = ["macros"] }
actix-service = "2"
futures = "0.3"
sqlx = { version = "0.7", default-features = false, features = ["mysql", "runtime-tokio"] }
serde = { version = "1", features = ["derive"] }
serde_json = "1"
dotenv = "0.15"
