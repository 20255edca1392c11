[package]
name = "rustcomm"
version = "0.1.0"
edition = "2021"
publish = false

[dependencies]
config = { version = "0.15", default-features = false }
mio = { version = "1", features = ["os-poll", "net"] }
bincode = "2"
downcast-rs = "2"
futures = "0.3"
quinn-proto = "0.11"
rustls = { version = "0.23", default-features = false, features = ["ring", "std", "tls12", "logging"] }
rustls-pemfile = "2"
bytes = "1"
thiserror = "2"
tracing = "0.1"
