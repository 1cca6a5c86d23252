[package]
name = "holo_vrrp"
version = "0.1.0"
edition = "2021"
publish = false

[dependencies]
bytes = "1"
internet-checksum = "0.2"
libc = "0.2"
serde = { version = "1", features = ["derive"] }
tracing = "0.1"
