[package]
name = "rpc_framing"
version = "0.1.0"
edition = "2021"
publish = false

[dependencies]
bincode = "1"
byteorder = "1"
serde = "1"
tokio-core = "0.1"
tokio-proto = "0.1"
