[package]
name = "iceberg_schema_provider"
version = "0.1.0"
edition = "2021"
publish = false

[dependencies]
async-trait = "=0.1.92"
dashmap = "=6.2.1"
datafusion = { version = "=53.1.0", default-features = false }
futures = "=0.3.34"
iceberg = { version = "=0.10.1", default-features = false }
tokio = { version = "=1.54.1", features = ["rt", "rt-multi-thread"] }
