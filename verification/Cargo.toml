[package]
name = "mvrps"
version = "0.1.0"
edition = "2021"
publish = false

[dependencies]
rustls = "=0.21.12"
rustls-pemfile = "=1.0.4"
tokio = { version = "=1.53.2", features = ["rt-multi-thread", "net", "io-util", "macros", "time"] }
tokio-rustls = "=0.24.1"
openssh = "=0.9.9"

[dev-dependencies]
rcgen = "0.11"
