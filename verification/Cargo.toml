[package]
name = "spa-device"
version = "0.1.0"
edition = "2021"
publish = false

[dependencies]
aws-lc-rs = "1"
aya = "0.13"
aya-ebpf = "0.1"
hex = "0.4"
libc = "0.2"
reqwest = { version = "0.12", default-features = false, features = ["blocking", "rustls-tls-webpki-roots-no-provider"] }
rustls = { version = "0.23", default-features = false, features = ["aws_lc_rs", "std", "tls12"] }
serde = { version = "1", features = ["derive"] }
serde_json = "1"
smoltcp = "0.12"
tokio = { version = "1", features = ["time"] }
toml = "0.8"
tun = "0.6"
