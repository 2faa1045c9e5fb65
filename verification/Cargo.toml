[package]
name = "dali"
version = "0.1.0"
edition = "2021"
publish = false

[dependencies]
rexif = "=0.7.5"
libvips = "=2.3.0"
tokio = { version = "=1.53.2", features = ["rt-multi-thread", "macros", "sync", "net"] }
axum = "=0.8.9"
serde = { version = "=1.0.229", features = ["derive"] }
serde_json = "=1.0.151"
serde_qs = "=1.1.3"
reqwest = { version = "=0.13.5", default-features = false, features = ["stream"] }
futures = "=0.3.34"
rayon = "=1.12.0"
num_cpus = "=1.17.0"
log = "=0.4.34"
env_logger = "=0.11.11"
thiserror = "=2.0.21"
async-trait = "=0.1.92"
aws-config = "*"
aws-sdk-s3 = "*"
