[package]
name = "ldd_nat_cross_rclient"
version = "0.1.0"
edition = "2021"
publish = false

[dependencies]
tokio = { version = "1", features = ["rt-multi-thread", "net", "sync", "macros", "io-util"] }
clap = { version = "4", features = ["derive"] }
serde = { version = "1", features = ["derive"] }
serde_yaml = "0.9"
fern = "0.7"
log = "0.4"
chrono = "0.4"
bytes = "1"
