[package]
name = "string_analyzer_service"
version = "0.1.0"
edition = "2021"
publish = false

[dependencies]
regex = "1"
sha2 = "0.10"
actix-web = { version = "4", default-features = false, features = ["macros"] }
actix-cors = "0.7"
chrono = { version = "0.4", features = ["serde"] }
env_logger = "0.11"
futures-util = "0.3"
log = "0.4"
once_cell = "1"
serde = { version = "1", features = ["derive"] }
