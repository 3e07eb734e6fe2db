[package]
name = "stowage"
version = "0.1.0"
edition = "2021"
publish = false

[dependencies]
rusqlite = { version = "*", features = ["bundled"] }
sha2 = "*"
uuid = { version = "*", features = ["v4"] }
infer = "*"
mime_guess = "*"
serde = { version = "*", features = ["derive"] }
serde_json = "*"
actix-web = { version = "*", default-features = false, features = ["macros"] }
actix-multipart = "*"
actix-files = "*"
actix-cors = "*"
futures-util = "*"
tokio = { version = "*", features = ["sync", "time", "rt", "rt-multi-thread", "macros"] }
reqwest = { version = "*", default-features = false }
log = "*"
env_logger = "*"
