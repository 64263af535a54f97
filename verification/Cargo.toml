[package]
name = "perf_statemap"
version = "0.1.0"
edition = "2021"
publish = false

[dependencies]
byteorder = "1"
clap = { version = "4", features = ["derive"] }
color-eyre = "0.6"
compact_str = { version = "*", features = ["serde"] }
env_logger = "*"
eyre = "0.6"
linux-perf-data = "*"
log = "0.4"
memchr = "2"
serde = { version = "1", features = ["derive"] }
serde_json = "1"
serde_repr = "0.1"
thiserror = "*"
