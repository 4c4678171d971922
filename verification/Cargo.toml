[package]
name = "destiny_pkg"
version = "0.1.0"
edition = "2021"
publish = false

[dependencies]
aes-gcm = "0.10"
anyhow = "1"
bincode = "2"
binrw = "0.14"
clap = { version = "4", features = ["derive"] }
clap-num = "1"
hex = "0.4"
lazy_static = "1"
libloading = "0.8"
parking_lot = "0.12"
rayon = "1"
serde = { version = "1", features = ["derive"] }
serde_json = "1"
tracing = "0.1"
