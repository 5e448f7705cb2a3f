[package]
name = "speedscope"
version = "0.1.0"
edition = "2021"
publish = false

[dependencies]
serde = { version = "*", features = ["derive"] }
serde_json = "*"
py-spy = "*"
sysinfo = "*"
