[package]
name = "builder_jobs"
version = "0.1.0"
edition = "2021"
publish = false

[dependencies]
protobuf = "2.28"
postgres = "0.19"
zmq = "0.10"
toml = "0.5"
serde = { version = "1", features = ["derive"] }
