[package]
name = "aqueduct"
version = "0.1.0"
edition = "2021"
publish = false

[dependencies]
lz4_flex = "*"
tokio = { version = "*", features = ["rt-multi-thread", "net", "io-util", "sync", "macros", "time"] }
bytes = "*"
mdns-sd = "*"
log = "*"
thiserror = "*"
