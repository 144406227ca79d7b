[package]
name = "shdlc_driver"
version = "0.1.0"
edition = "2021"
publish = false

[dependencies]
byteorder = "1"
thiserror = "1"
async-trait = "0.1"
tokio = { version = "1", features = ["rt", "rt-multi-thread", "time", "sync", "net", "io-util", "macros"] }
tokio-serial = { version = "5", default-features = false }
