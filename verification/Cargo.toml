[package]
name = "cmdproxy"
version = "0.1.0"
edition = "2021"
publish = false

[dependencies]
anyhow = "1"
celery = "*"
chrono = "0.4"
clap = { version = "4", features = ["derive"] }
directories = "*"
env_logger = "*"
futures = "0.3"
hostname = "*"
log = "0.4"
mongodb = "2"
mongodb-gridfs = "*"
once_cell = "1"
serde = { version = "1", features = ["derive"] }
serde_json = "1"
serde_yaml = "*"
strfmt = "*"
tempfile = "3"
tokio = { version = "1", features = ["full"] }
walkdir = "2"
zip = "0.6"
