[package]
name = "dht_core"
version = "0.1.0"
edition = "2021"
publish = false

[dependencies]
quick-xml = "=0.31.0"
sysinfo = { version = "=0.30.13", default-features = false }
tokio = { version = "1", features = ["rt-multi-thread", "macros", "io-std", "io-util", "sync", "time"] }
clap = { version = "4", features = ["derive"] }
futures = "0.3"
futures-util = "0.3"
reqwest = { version = "0.11", default-features = false }
tracing-subscriber = { version = "0.3", features = ["env-filter"] }
