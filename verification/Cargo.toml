[package]
name = "openshell_tls"
version = "0.1.0"
edition = "2021"
publish = false

[dependencies]
miette = "7"
rcgen = "0.13"
rustls = { version = "0.23", default-features = false, features = ["logging", "ring", "std", "tls12"] }
rustls-pemfile = "2"
tokio = { version = "1", features = ["io-util", "net", "rt"] }
tokio-rustls = { version = "0.26", default-features = false, features = ["logging", "ring", "tls12"] }
webpki-roots = "1"
