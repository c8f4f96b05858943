[package]
name = "home_telemetry"
version = "0.1.0"
edition = "2021"
publish = false

[dependencies]
async-sqlite = "*"
dotenv = "0.15"
log = "0.4"
thiserror = "*"
tokio = { version = "1", features = ["full"] }
