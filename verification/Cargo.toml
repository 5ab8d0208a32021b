[package]
name = "linemux"
version = "0.1.0"
edition = "2021"
publish = false

[dependencies]
byteorder = "1"
slab = "0.3"
futures = "0.1"
mio = "0.6"
tokio-core = "0.1"
tokio-proto = "0.1"
tokio-service = "0.1"
