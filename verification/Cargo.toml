[package]
name = "dog_walking"
version = "0.1.0"
edition = "2021"
publish = false

[dependencies]
mongodb = "3"
chrono = { version = "0.4", default-features = false, features = ["clock", "std"] }
serde = { version = "1", features = ["derive"] }
futures-util = "0.3"
actix-web = { version = "4", default-features = false, features = ["macros"] }
dotenv = "0.15"
env_logger = "0.11"
