[package]
name = "arazzo_models"
version = "0.1.0"
edition = "2021"
publish = false

[dependencies]
serde = "=1.0.229"
serde_json = "=1.0.151"
yaml-rust2 = "=0.13.0"

[dev-dependencies]
serde_yaml = "*"
