[package]
name = "mjpeg_stream"
version = "0.1.0"
edition = "2021"
publish = false

[dependencies]
tokio = { version = "=1.53.2", features = ["full"] }
futures-util = "=0.3.34"
clap = { version = "=4.6.7", features = ["derive"] }
serde = { version = "=1.0.229", features = ["derive"] }
warp = { version = "=0.4.3", features = ["server"] }
