[package]
name = "libdonet"
version = "0.1.0"
edition = "2021"
publish = false

[dependencies]
multimap = "*"
chrono = "*"
log = "*"
tokio = { version = "*", features = ["rt", "net", "fs", "io-util", "sync", "macros", "time"] }
