[package]
name = "dns_proxy"
version = "0.1.0"
edition = "2021"
publish = false

[dependencies]
trust-dns-proto = "0.21"
crossbeam = "0.8"
mio = { version = "0.8", features = ["net", "os-poll"] }
log = "0.4"
