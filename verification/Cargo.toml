[package]
name = "partition_core"
version = "0.1.0"
edition = "2021"
publish = false

[dependencies]
base64 = "0.21"
uuid = { version = "1", features = ["v7"] }
xxhash-rust = { version = "0.8", features = ["xxh3"] }
