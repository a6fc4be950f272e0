[package]
name = "proprompter"
version = "0.1.0"
edition = "2021"
publish = false

[dependencies]
anyhow = "1"
chrono = "0.4"
directories = "5"
ignore = "0.4"
memmap2 = "0.9"
notify = "6"
quick-xml = "0.37"
serde = { version = "1", features = ["derive"] }
serde_json = "1"
tokio = { version = "1", features = ["fs", "rt", "macros"] }
uuid = { version = "1", features = ["v4"] }
walkdir = "2"
