[package]
name = "receiver"
version = "0.1.0"
edition = "2021"
publish = false

[dependencies]
chrono = "=0.4.45"
serialport = { version = "=4.10.1", default-features = false }
arrow = "=60.0.0"
parquet = "=60.0.0"
anyhow = "=1.0.104"
thiserror = "=2.0.21"
ctrlc = "=3.5.2"
clap = { version = "=4.6.7", features = ["derive"] }
