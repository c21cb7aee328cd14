[package]
name = "dns_forwarder"
version = "0.1.0"
edition = "2021"
publish = false

[dependencies]
hickory-proto = "*"
tokio = { version = "*", features = ["full"] }
tokio-rustls = { version = "*", default-features = false, features = ["ring", "tls12"] }
webpki-roots = "*"
anyhow = "*"
clap = { version = "*", features = ["derive"] }
nix = { version = "*", features = ["user"] }
serde = { version = "*", features = ["derive"] }
toml = "*"
lazy_static = "*"
