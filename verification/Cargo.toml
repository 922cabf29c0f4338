[package]
name = "mitm_capture"
version = "0.1.0"
edition = "2021"
publish = false

[dependencies]
rustls = "*"
rustls-pemfile = "*"
rustls-pki-types = "*"
tokio = { version = "*", features = ["full"] }
tokio-rustls = "*"
webpki-roots = "*"
