[package]
name = "hyprs_log"
version = "0.1.0"
edition = "2021"
publish = false

[dependencies]
chrono = "=0.4.45"
regex = "=1.13.1"
serde = { version = "=1.0.229", features = ["derive"] }
serde_json = "=1.0.154"
toml = "=0.9.8"
directories = "=6.0.0"
shellexpand = "=3.1.2"
flate2 = "=1.1.10"
clap = { version = "=4.6.7", features = ["derive"] }
tokio = { version = "=1.54.1", features = ["rt", "time", "net", "io-util"] }
