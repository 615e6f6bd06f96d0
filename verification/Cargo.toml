[package]
name = "quic_actor"
version = "0.1.0"
edition = "2021"
publish = false

[dependencies]
actix = "0.13"
actix-rt = "2"
bytes = "1"
dashmap = "5"
futures = "0.3"
futures-util = "0.3"
log = "0.4"
log4rs = "1"
quiche = "0.10"
ring = "0.16"
tokio = { version = "1", features = ["net", "time", "sync", "macros", "rt-multi-thread"] }
tokio-util = { version = "0.7", features = ["codec", "net"] }
