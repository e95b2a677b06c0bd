[package]
name = "host_discovery"
version = "0.1.0"
edition = "2021"
publish = false

[dependencies]
anyhow = "1"
ipnetwork = "*"
mac_oui = { version = "*", features = ["with-db"] }
pnet = "*"
surge-ping = "*"
tokio = { version = "1", features = ["rt-multi-thread", "macros", "sync", "time", "net"] }
