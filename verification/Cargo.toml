[package]
name = "pocketflow"
version = "0.2.0"
edition = "2021"
publish = false

[dependencies]
serde = { version = "=1.0.229", features = ["derive"] }
serde_json = "=1.0.154"
regex = "=1.13.1"
jsonschema = { version = "=0.60.2", default-features = false }
uuid = { version = "=1.29.0", features = ["v4"] }
chrono = "=0.4.45"
thiserror = "=2.0.21"
eyre = "=0.6.14"
async-trait = "=0.1.92"
tokio = { version = "=1.54.1", features = ["rt-multi-thread", "macros", "sync", "time"] }
futures = "=0.3.34"
tokio-stream = "=0.1.19"
tracing = "=0.1.44"
dptree = "=0.5.1"
genai = "=0.7.2"
ultrafast-mcp = { version = "=202506018.1.0", features = ["http"] }
