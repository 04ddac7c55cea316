[package]
name = "sphereland"
version = "0.1.0"
edition = "2021"
publish = false

[dependencies]
rustc-hash = "=2.1.3"
stardust-xr-fusion = "=0.43.2"
stardust-xr-molecules = "=0.29.0"
glam = { version = "=0.24.2", features = ["mint"] }
mint = "=0.5.9"
tokio = { version = "1", features = ["rt", "macros", "signal"] }
color-eyre = "0.6"
tracing-subscriber = { version = "0.3", features = ["env-filter"] }
manifest-dir-macros = "0.1"
input-event-codes = "*"
lazy_static = "1"
