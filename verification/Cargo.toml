[package]
name = "workflow_engine"
version = "0.1.0"
edition = "2021"
publish = false

[dependencies]
clap = { version = "=4.6.7", features = ["derive"] }
oci-client = "=0.14.0"
petgraph = "=0.7.1"
regex = "=1.13.1"
reqwest = "=0.12.28"
serde = { version = "=1.0.229", features = ["derive"] }
serde_json = "=1.0.154"
serde_yaml = "=0.9.34"
thiserror = "=2.0.21"
tokio = { version = "=1.54.1", features = ["full"] }
url = "=2.5.8"
wasm-wave = "=0.224.1"
wasmtime = { version = "=30.0.2", default-features = false, features = ["runtime", "component-model", "cranelift", "async", "wave", "wat", "std"] }
wasmtime-wasi = "=30.0.2"
wasmtime-wasi-http = "=30.0.2"

[dev-dependencies]
wat = "=1.262.0"
