[package]
name = "tokio_rustls_acme"
version = "0.1.0"
edition = "2021"
publish = false

[dependencies]
ring = "=0.17.14"
rcgen = "=0.13.2"
rustls = { version = "=0.23.45", default-features = false, features = ["ring", "logging", "std", "tls12"] }
x509-parser = "=0.16.0"
reqwest = { version = "0.12", default-features = false, features = ["rustls-tls"] }
tokio = { version = "1", features = ["rt", "time", "net", "io-util", "fs", "macros", "sync"] }
tokio-rustls = { version = "0.26", default-features = false, features = ["ring", "logging", "tls12"] }
futures = "0.3"
webpki-roots = "0.26"
serde = { version = "1", features = ["derive"] }
serde_json = "1"
async-trait = "0.1"

[dev-dependencies]
base64 = "=0.22.1"
pem = "=3.0.6"
