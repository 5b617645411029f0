[package]
name = "stampa"
version = "0.1.0"
edition = "2021"
publish = false

[dependencies]
actix-cors = "0.6"
actix-web = "4"
actix-web-httpauth = "0.6"
base64 = "0.13"
bcrypt = "*"
bson = "2"
chrono = "0.4"
dotenv = "0.15"
env_logger = "*"
futures = "0.3"
image = "0.24"
jsonwebtoken = "8"
mongodb = "2"
rand = "0.8"
rusoto_core = "0.48"
rusoto_s3 = "0.48"
serde = { version = "1", features = ["derive"] }
tokio = { version = "1", features = ["macros", "rt-multi-thread"] }
