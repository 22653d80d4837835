[package]
name = "apple_smi"
version = "0.1.0"
edition = "2021"
publish = false

[dependencies]
anyhow = "1"
libc = "0.2"
objc2-metal = "0.3"
serde = { version = "1", features = ["derive"] }
serde_json = "1"
