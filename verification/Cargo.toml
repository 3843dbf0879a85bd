[package]
name = "sshscan"
version = "0.1.0"
edition = "2021"
publish = false

[dependencies]
crossbeam = "0.8"
csv = "1"
serde = { version = "1", features = ["derive"] }
serde_json = "1"
ssh2 = "0.9"
