[package]
name = "job_tracker"
version = "0.1.0"
edition = "2021"
publish = false

[dependencies]
rusqlite = { version = "*", features = ["bundled"] }
actix-web = "*"
actix-files = "*"
tera = "*"
serde = { version = "*", features = ["derive"] }
log = "*"
env_logger = "*"
csv = "*"
