[package]
name = "sunfish"
version = "0.1.0"
edition = "2021"
publish = false

[dependencies]
sha2 = "0.10"
hex = "0.4"
http = "0.2"
hyper = { version = "0.14", features = ["full"] }
tokio = { version = "1", features = ["rt-multi-thread", "macros", "net", "sync", "time"] }
tokio-stream = "0.1"
futures-batch = "*"
futures = "0.3"
notify = "*"
ignore = "*"
which = "*"
walkdir = "2"
