[package]
name = "ledger_client"
version = "0.1.0"
edition = "2021"
publish = false

[dependencies]
hedera = "=0.43.0"
pyo3 = "=0.30.1"
tokio = { version = "=1.54.1", features = ["rt"] }
