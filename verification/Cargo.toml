[package]
name = "veil_core"
version = "0.2.2"
edition = "2021"
publish = false

[dependencies]
serde = { version = "1", features = ["derive"] }
serde_json = "1"
serde_yaml = "0.9"
sha2 = "0.10"
urlencoding = "2"
clap = { version = "4", features = ["derive"] }
chrono = "0.4"
sysinfo = "0.33"
notify = "6"
walkdir = "2"
json = "0.12"
json5 = "0.4"
once_cell = "1"
