[package]
name = "pixel_transcoder"
version = "0.1.0"
edition = "2021"
publish = false

[dependencies]
ril = { version = "=0.10.3", features = ["png", "jpeg", "gif"] }
rand = "=0.8.8"
photon-rs = "=0.3.3"
serde = { version = "1", features = ["derive"] }
axum = { version = "0.5", features = ["multipart", "headers"] }
tokio = { version = "1", features = ["rt-multi-thread", "macros", "signal"] }
tower = { version = "0.4", features = ["util"] }
tower-http = { version = "0.3", features = ["fs"] }
dotenv = "0.15"
lazy_static = "1"
