[package]
name = "agent_core"
version = "0.1.0"
edition = "2021"
publish = false

[dependencies]
libc = "=0.2.191"
reqwest = { version = "=0.12.28", default-features = false, features = ["json", "stream", "rustls-tls"] }
serde = { version = "=1.0.229", features = ["derive"] }
serde_json = { version = "=1.0.154", features = ["preserve_order"] }
tokio = { version = "=1.54.1", features = ["fs", "io-util", "macros", "process", "rt-multi-thread", "sync", "time"] }
tokio-stream = { version = "=0.1.19", features = ["sync"] }
toml = "=0.9.12"
tracing = "=0.1.44"
