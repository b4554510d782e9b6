[package]
name = "moon_core"
version = "0.1.0"
edition = "2021"
publish = false

[dependencies]
globset = "=0.4.21"
serde_json = "=1.0.154"
camino = "=1.2.6"
ec4rs = "=1.2.0"
lsp-types = "=0.97.0"
tokio = { version = "=1.54.1", features = ["process", "io-util", "rt", "sync", "time", "fs"] }
reqwest = { version = "=0.12.28", default-features = false, features = ["json"] }
tracing = "=0.1.44"
url = "=2.5.8"
which = "*"
ignore = "*"
