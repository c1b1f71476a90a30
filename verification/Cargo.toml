[package]
name = "netlab"
version = "0.1.0"
edition = "2021"
publish = false

[dependencies]
indexmap = { version = "2", features = ["serde"] }
cidr = { version = "0.3", features = ["serde"] }
clap = { version = "4", features = ["derive"] }
strum = { version = "0.27", features = ["derive"] }
serde = { version = "1", features = ["derive"] }
serde_json = "1"
anyhow = "1"
log = "0.4"
tracing = "0.1"
once_cell = "1"
tokio = { version = "1", features = ["rt-multi-thread", "macros", "time"] }
futures = "0.3"
pyo3 = "*"
serde-pyobject = "*"
