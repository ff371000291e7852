[package]
name = "rvm"
version = "0.1.0"
edition = "2021"
publish = false

[dependencies]
anyhow = "*"
axum = "*"
blake3 = "=1.8.7"
hyper = { version = "*", features = ["server", "http1"] }
opendal = { version = "*", features = ["services-fs"] }
serde = { version = "*", features = ["derive"] }
tokio = { version = "*", features = ["full"] }
tower-http = { version = "*", features = ["limit"] }
tracing = "*"
tracing-subscriber = { version = "*", features = ["env-filter"] }
wasmtime = "=48.0.5"
wasmtime-wasi = "=48.0.5"
wasmtime-wasi-http = "=48.0.5"
