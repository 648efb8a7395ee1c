[package]
name = "gtfo_log_tracker"
version = "0.1.0"
edition = "2021"
publish = false

[dependencies]
time = "=0.3.55"
anyhow = "1"
serde = { version = "1", features = ["derive"] }
serde_json = "1"
reqwest = { version = "=0.11.27", features = ["json", "blocking"] }
notify = { version = "=6.1.1", default-features = false }
futures = "0.3"
log = "0.4"
simplelog = { version = "0.12", default-features = false }
dirs = "5"
steamworks = "=0.10.0"
iced = { version = "0.10", default-features = false }
iced_table = "0.1"
