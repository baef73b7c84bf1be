[package]
name = "relayer"
version = "0.1.0"
edition = "2021"
publish = false

[dependencies]
async-std = "1"
futures = "0.3"
log = "0.4"
metrics = "0.21"
quinn = { version = "0.11", default-features = false, features = ["futures-io"] }
