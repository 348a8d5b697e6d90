[package]
name = "mirage"
version = "0.1.0"
edition = "2021"
publish = false

[dependencies]
serde = { version = "1", features = ["derive"] }
serde_json = "1"
serde_bare = "0.5"
libc = "0.2"
