[package]
name = "mra"
version = "0.1.0"
edition = "2021"
publish = false

[dependencies]
anyhow = "1"
arc-swap = "1"
axum = "0.8"
figment = { version = "0.10", features = ["toml", "env"] }
futures-util = "0.3"
num_cpus = "1"
rayon = "1"
reqwest = { version = "0.12", default-features = false, features = ["json"] }
schemars = "1"
serde = { version = "1", features = ["derive"] }
serde_json = "1"
tempfile = "3"
thiserror = "2"
tokio = { version = "1", features = ["full"] }
tokio-util = "0.7"
toml = "0.8"
tracing = "0.1"
tracing-subscriber = { version = "0.3", features = ["env-filter"] }
uuid = { version = "1", features = ["v4", "serde"] }
wasmtime = { version = "29", default-features = false, features = ["runtime", "cranelift", "std"] }
wasmtime-wasi = { version = "29", default-features = false, features = ["preview1"] }
