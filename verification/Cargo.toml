[package]
name = "qubit_metadata_verified"
version = "0.1.0"
edition = "2021"
publish = false

[dependencies]
qubit-value = { version = "=0.12.2", features = ["big-number"] }
qubit-datatype = "=0.14.0"
qubit-budget = "=0.10.1"
qubit-json = "=0.12.1"
qubit-redact = "=0.9.0"
qubit-utils = "=0.3.2"
serde = { version = "=1.0.229", features = ["derive"] }
serde_json = "=1.0.154"
chrono = "=0.4.45"
bigdecimal = "=0.4.11"
num-bigint = "=0.4.8"
url = "=2.5.8"
