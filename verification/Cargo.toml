[package]
name = "sensors"
version = "0.1.0"
edition = "2021"
publish = false

[dependencies]
anyhow = "1"
log = "0.4"
nvml-wrapper = "0.10"
sysinfo = "0.33"
tokio = { version = "1", features = ["fs"] }
