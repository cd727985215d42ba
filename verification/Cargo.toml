[package]
name = "serde_binary"
version = "0.1.0"
edition = "2021"
publish = false

[dependencies]
binary_rw = "*"
serde = { version = "1", features = ["derive"] }
thiserror = "1"
