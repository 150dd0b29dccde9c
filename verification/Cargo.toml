[package]
name = "fantastic_giggle"
version = "0.1.0"
edition = "2021"
publish = false

[dependencies]
rand = "0.8"
egg-mode = "0.16"
tokio = { version = "1", features = ["macros", "rt-multi-thread", "time"] }
sqlx = { version = "0.6", default-features = false, features = ["runtime-tokio-rustls", "postgres", "time"] }
actix-web = { version = "4", default-features = false, features = ["macros", "cookies"] }
serde = { version = "1", features = ["derive"] }
env_logger = "0.10"
log = "0.4"
