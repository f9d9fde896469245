[package]
name = "rust_rdp"
version = "0.1.0"
edition = "2021"
publish = false

[dependencies]
picky = "*"
ironrdp-pdu = "*"
ironrdp-graphics = "*"
ironrdp-core = "*"
ironrdp-connector = "*"
ironrdp-async = "*"
ironrdp-tokio = "*"
ironrdp-dvc = "*"
ironrdp-egfx = "*"
ironrdp-svc = "*"
tokio = { version = "1", features = ["rt-multi-thread", "net", "time", "sync", "macros"] }
tokio-rustls = { version = "*", default-features = false, features = ["ring", "tls12"] }
rustls = { version = "*", default-features = false, features = ["ring", "std", "tls12"] }
vnc-rs = "*"
lazy_static = "*"
log = "*"
parking_lot = "*"
