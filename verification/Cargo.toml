[package]
name = "ocr_intake"
version = "0.1.0"
edition = "2021"
publish = false

[dependencies]
anyhow = "=1.0.104"
axum = "=0.8.9"
hex = "=0.4.3"
image = "=0.25.10"
infer = "=0.22.0"
libmdns = "=0.10.1"
ocrs = "=0.13.1"
reqwest = { version = "=0.13.5", features = ["json"] }
rten = "=0.26.0"
rten-imageproc = "=0.26.0"
serde = { version = "=1.0.229", features = ["derive"] }
serialport = { version = "=4.10.1", default-features = false }
tokio = { version = "=1.54.1", features = ["full"] }
tower-http = { version = "=0.7.1", features = ["trace"] }
