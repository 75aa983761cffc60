[package]
name = "rhesis"
version = "0.1.0"
edition = "2021"
publish = false

[dependencies]
tokio = { version = "1", features = ["rt-multi-thread", "macros", "sync", "time", "process"] }
reqwest = { version = "0.12", default-features = false, features = ["json", "rustls-tls"] }
serde_json = "1"
log = "0.4"
env_logger = "0.11"
lazy_static = "1"
cxx = "1"
cxx-qt = "0.7"
cxx-qt-lib = "0.7"
cxx-qt-lib-extras = "0.7"
