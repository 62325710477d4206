[package]
name = "odm_postprocess"
version = "0.1.0"
edition = "2021"
publish = false

[dependencies]
clap = "=4.6.7"
image = { version = "=0.24.9", default-features = false, features = ["png"] }
serde = { version = "=1.0.229", features = ["derive"] }
serde_json = { version = "=1.0.154", features = ["arbitrary_precision"] }
webp = "=0.2.6"
