[package]
name = "file_server_core"
version = "0.1.0"
edition = "2021"
publish = false

[dependencies]
mime_guess = "*"
actix-web = { version = "*", default-features = false, features = ["macros"] }
actix-files = "*"
askama = "*"
clap = { version = "*", features = ["cargo"] }
env_logger = "*"
log = "*"
serde = { version = "*", features = ["derive"] }
serde_json = "*"
futures-util = "*"
