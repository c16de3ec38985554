[package]
name = "ipv6_pool_proxy"
version = "0.1.0"
edition = "2021"
publish = false

[dependencies]
cidr = "0.2"
getopts = "0.2"
hyper = { version = "0.14", features = ["client", "server", "http1", "runtime"] }
rand = "0.8"
tokio = { version = "1", features = ["io-util", "macros", "net", "process", "rt-multi-thread", "sync", "time"] }
