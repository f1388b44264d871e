[package]
name = "cncnet_server"
version = "1.0.0"
edition = "2021"
publish = false

[dependencies]
anyhow = "1"
bytes = "1"
clap = { version = "4", features = ["derive", "env"] }
dashmap = "6"
futures = "0.3"
http-body-util = "0.1"
hyper = { version = "1", features = ["server", "http1"] }
hyper-util = { version = "0.1", features = ["tokio"] }
num_cpus = "1"
once_cell = "1"
parking_lot = "0.12"
percent-encoding = "2"
prometheus = "0.13"
rand = "0.9"
rater = "*"
reqwest = { version = "0.12", default-features = false }
sha1 = "0.10"
smallvec = "1"
socket2 = { version = "0.5", features = ["all"] }
thiserror = "1"
tokio = { version = "1", features = ["full"] }
tracing = "0.1"
tracing-subscriber = { version = "0.3", features = ["env-filter", "json"] }
udp-relay-core = "*"
urlencoding = "2"
