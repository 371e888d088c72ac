[package]
name = "xray_lite"
version = "0.1.0"
edition = "2021"
publish = false

[dependencies]
ring = "=0.17.14"
base64 = "=0.22.1"
x25519-dalek = { version = "=2.0.1", features = ["static_secrets"] }
rand = "=0.8.8"
tokio = { version = "=1.53.2", features = ["full"] }
bytes = "=1.12.1"
h2 = "=0.4.20"
http = "=1.5.0"
anyhow = "=1.0.104"
clap = { version = "=4.6.7", features = ["derive"] }
libc = "0.2"
aya = "=0.14.0"
aya-log = "=0.3.0"
rcgen = { version = "=0.14.10", default-features = false, features = ["ring"] }
rustls = { version = "=0.23.45", default-features = false, features = ["ring", "std"] }
tokio-rustls = { version = "=0.26.6", default-features = false, features = ["ring"] }
