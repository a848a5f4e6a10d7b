[package]
name = "jetkvm_rdp"
version = "0.1.0"
edition = "2021"
publish = false

[dependencies]
anyhow = "=1.0.104"
async-trait = "=0.1.92"
bytes = "=1.12.1"
ironrdp-core = "=0.2.1"
ironrdp-displaycontrol = "=0.8.0"
ironrdp-dvc = "=0.8.0"
ironrdp-egfx = "=0.3.0"
ironrdp-error = "=0.2.1"
ironrdp-server = { version = "=0.13.0", features = ["egfx"] }
ironrdp-svc = "=0.8.0"
tokio = { version = "=1.54.1", features = ["full"] }
tracing = "=0.1.44"
tracing-subscriber = { version = "=0.3.23", features = ["env-filter"] }
