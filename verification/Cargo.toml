[package]
name = "p2p_audio"
version = "0.1.0"
edition = "2021"
publish = false

[dependencies]
ringbuf = "=0.2.8"
cpal = "0.13"
anyhow = "1"
serde = { version = "1", features = ["derive"] }
serde_json = "1"
hyper = { version = "0.14", features = ["client", "http1", "tcp"] }
tokio = { version = "1", features = ["io-std", "io-util"] }
stunclient = "0.4"
local-ip-address = "*"
