[package]
name = "dataflow-rs"
version = "0.1.0"
edition = "2021"
publish = false

[dependencies]
serde = { version = "=1.0.229", features = ["derive"] }
serde_json = "=1.0.154"
chrono = { version = "=0.4.45", default-features = false, features = ["clock", "std"] }
uuid = { version = "=1.29.0", features = ["v7"] }
tokio = { version = "=1.54.1", features = ["time", "rt", "macros"] }
datalogic-rs = "=4.0.21"
quick-xml = { version = "=0.42.0", features = ["serialize"] }
serde_urlencoded = "*"
