[package]
name = "fopener"
version = "0.1.0"
edition = "2021"
publish = false

[dependencies]
globset = "=0.4.21"
regex = "=1.13.1"
uuid = { version = "=1.29.0", features = ["v4"] }
serde = { version = "=1.0.229", features = ["derive"] }
serde_json = "=1.0.154"
clap = { version = "=4.6.7", features = ["derive"] }
directories = "=5.0.1"
notify = "=6.1.1"
anyhow = "=1.0.104"
tracing = "=0.1.44"
tracing-subscriber = { version = "=0.3.23", features = ["env-filter"] }
