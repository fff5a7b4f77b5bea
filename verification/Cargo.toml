[package]
name = "file_share"
version = "0.1.0"
edition = "2021"
publish = false

[dependencies]
rand = "=0.8.8"
md-5 = "=0.10.6"
faster-hex = "=0.9.0"
serde = { version = "=1.0.229", features = ["derive"] }
serde_json = "=1.0.154"
tokio = { version = "=1.54.1", features = ["rt", "macros", "sync"] }
tracing = "=0.1.44"
zino = "=0.46.3"
zino-core = "=0.45.0"
zino-auth = "=0.17.0"
zino-storage = "=0.18.3"
hmac = "=0.13.0"
zino-derive = "=0.44.3"
zino-model = "=0.43.0"
