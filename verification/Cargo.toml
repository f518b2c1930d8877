[package]
name = "async_net"
version = "0.1.0"
edition = "2021"
publish = false

[dependencies]
async-io = "1"
futures-lite = "1"
futures-util = { version = "0.3", default-features = false, features = ["std", "io"] }
