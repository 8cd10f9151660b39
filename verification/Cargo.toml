[package]
name = "microsandbox_vfs"
version = "0.1.0"
edition = "2021"
publish = false

[dependencies]
ciborium = "0.2"
libc = "0.2"
serde = { version = "1", features = ["derive"] }
serde_bytes = "0.11"
tempfile = "3"
