[package]
name = "phase_cloud"
version = "0.1.0"
edition = "2021"
publish = false

[dependencies]
anyhow = "1"
clap = { version = "4", features = ["derive"] }
colorous = "1"
ndarray = "*"
ndarray-linalg = "*"
ndarray-npy = "*"
tempfile = "3"
