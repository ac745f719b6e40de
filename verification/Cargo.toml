[package]
name = "user_service"
version = "0.1.0"
edition = "2021"
publish = false

[dependencies]
chrono = { version = "*", features = ["serde"] }
serde = { version = "*", features = ["derive"] }
uuid = { version = "*", features = ["serde"] }
actix-web = "*"
async-trait = "*"
dotenv = "*"
thiserror = "*"
