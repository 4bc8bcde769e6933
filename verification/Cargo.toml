[package]
name = "fingerprint"
version = "0.1.0"
edition = "2021"
publish = false

[dependencies]
flate2 = "=1.1.10"
brotli-decompressor = "=4.0.3"
pcap-file = "=2.0.0"
regex = "=1.13.1"
prometheus = { version = "=0.13.4", default-features = false }
lazy_static = "=1.5.1"
rand = "0.8"
