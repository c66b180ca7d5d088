[package]
name = "ultimate64_manager"
version = "0.1.0"
edition = "2021"
publish = false

[dependencies]
tokio = { version = "1", features = ["rt-multi-thread", "time", "net", "io-util", "sync"] }
serde = { version = "1", features = ["derive"] }
serde_json = "1"
dirs = "*"
rand = "0.8"
chrono = { version = "0.4", default-features = false, features = ["clock"] }
pdf-extract = "*"
lopdf = "*"
image = { version = "0.25", default-features = false, features = ["png", "jpeg"] }
