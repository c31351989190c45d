[package]
name = "floci_duck"
version = "0.1.0"
edition = "2021"
publish = false

[dependencies]
duckdb = { version = "=1.20000.1", default-features = false }
arrow-ipc = "=60.1.0"
arrow-array = "=60.1.0"
arrow-data = "=60.1.0"
arrow-cast = { version = "=60.1.0", default-features = false }
serde = { version = "=1.0.229", features = ["derive"] }
serde_json = "=1.0.154"
anyhow = "=1.0.104"
axum = "=0.8.9"
tokio = { version = "=1.54.1", features = ["macros", "rt-multi-thread", "net"] }
tracing = "=0.1.44"
tracing-subscriber = { version = "=0.3.23", features = ["env-filter", "fmt"] }
uuid = { version = "=1.29.0", features = ["v4"] }
