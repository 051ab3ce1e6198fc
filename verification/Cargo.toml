[package]
name = "boid_hand_detector"
version = "0.1.0"
edition = "2021"
publish = false

[dependencies]
anyhow = "1"
clap = { version = "4", features = ["derive"] }
env_logger = "0.11"
heapless = "0.8"
libm = "0.2"
log = "0.4"
opencv = "*"
rand = "0.8"
reqwest = { version = "0.12", default-features = false, features = ["blocking", "json"] }
serde = { version = "1", features = ["derive"] }
serde_json = "1"
