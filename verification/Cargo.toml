[package]
name = "bandix_quota"
version = "0.1.0"
edition = "2021"
publish = false

[dependencies]
anyhow = "1"
aya-ebpf = "0.1"
chrono = "0.4"
serde = { version = "1", features = ["derive"] }
serde_json = "1"
