[package]
name = "gdpi_core"
version = "0.1.0"
edition = "2021"
publish = false

[dependencies]
clap = { version = "4", features = ["derive"] }
serde = { version = "1", features = ["derive"] }
toml = "0.8"
thiserror = "1"
ctrlc = "3"
tracing = "0.1"
tracing-subscriber = "0.3"
parking_lot = "0.12"
