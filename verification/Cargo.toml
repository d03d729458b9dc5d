[package]
name = "itemshop"
version = "0.1.0"
edition = "2021"
publish = false

[dependencies]
rust-argon2 = "=3.0.0"
chrono = "=0.4.45"
uuid = { version = "=1.27.0", features = ["v4"] }
validator = "=0.21.0"
dotenv = "=0.15.0"
actix-cors = "*"
actix-web = "*"
futures = "*"
juniper = "*"
juniper_actix = "*"
