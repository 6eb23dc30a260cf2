[package]
name = "parquet_key_management"
version = "0.1.0"
edition = "2021"
publish = false

[dependencies]
arrow = { version = "=56.2.1", default-features = false }
arrow-array = "=56.2.1"
async-trait = "0.1"
base64 = "=0.22.1"
datafusion-common = { version = "=50.3.0", default-features = false, features = ["parquet_encryption"] }
datafusion-execution = { version = "=50.3.0", default-features = false, features = ["parquet_encryption"] }
futures = "=0.3.34"
object_store = { version = "=0.12.5", default-features = false }
parquet = { version = "=56.2.1", default-features = false, features = ["arrow", "async", "encryption"] }
pyo3 = { version = "0.26", features = ["abi3-py311", "extension-module"] }
pyo3-arrow = "0.12"
ring = "=0.17.14"
serde_json = "=1.0.154"
tokio = { version = "=1.54.1", default-features = false, features = ["sync", "rt"] }

[dev-dependencies]
bytes = "1"
