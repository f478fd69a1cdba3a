[package]
name = "la_taupe"
version = "0.1.0"
edition = "2021"
publish = false

[dependencies]
regex = "=1.13.1"
ocrs = "=0.13.1"
rten = "=0.26.0"
rten-imageproc = "=0.26.0"
image = { version = "=0.25.10", default-features = false }
leptess = "=0.14.0"
tokio = { version = "=1.54.1", features = ["sync", "time", "macros", "rt-multi-thread"] }
actix-web = "=4.18.1"
actix-multipart = "=0.8.5"
reqwest = "=0.13.5"
serde = { version = "=1.0.229", features = ["derive"] }
log = "=0.4.35"
env_logger = "=0.11.11"
