[package]
name = "octostash"
version = "0.1.0"
edition = "2021"
publish = false

[dependencies]
futures-core = "0.3"
hyper = { version = "0.14", features = ["client", "http2", "tcp"] }
hyper-tls = "0.5"
itoa = "1"
serde = "1"
serde_json = { version = "1", features = ["preserve_order"] }
