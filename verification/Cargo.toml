[package]
name = "poem_adapters"
version = "0.1.0"
edition = "2021"
publish = false

[dependencies]
better-auth = "*"
better-auth-core = "*"
bytes = "1"
http-body = "1"
http-body-util = "0.1"
hyper = "1"
poem = "*"
serde_json = "1"
sync_wrapper = "1"
tokio-stream = "*"
tracing = "0.1"
vercel_runtime = "*"

[dev-dependencies]
tokio = { version = "1", features = ["rt", "macros"] }
