[package]
name = "component_service"
version = "0.1.0"
edition = "2021"
publish = false

[dependencies]
http = "=1.5.0"
uuid = "=1.29.0"
async-trait = "=0.1.92"
clap = { version = "=4.6.7", features = ["derive"] }
poem = { version = "=3.1.12", default-features = false }
serde = { version = "=1.0.229", features = ["derive"] }
serde_json = "=1.0.154"
tokio = { version = "=1.54.1", features = ["fs", "net", "rt", "sync", "time"] }
tracing = "=0.1.44"
wasmtime = { version = "=44.0.3", default-features = false, features = ["runtime", "cranelift", "component-model"] }
