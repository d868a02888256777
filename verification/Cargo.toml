[package]
name = "monitor"
version = "0.1.0"
edition = "2021"
publish = false

[dependencies]
anyhow = "1"
chrono = "0.4"
reqwest = { version = "0.12", default-features = false, features = ["rustls-tls"] }
rusqlite = { version = "0.37", features = ["bundled"] }
serde = { version = "1", features = ["derive"] }
serde_json = "1"
tokio = { version = "1", features = ["rt-multi-thread", "net", "time", "sync"] }
toml = "0.8"
tracing = "0.1"
wasmtime = { version = "44", default-features = false, features = ["cranelift", "runtime", "std"] }

[dev-dependencies]
wat = "1"
