[package]
name = "ratatat"
version = "0.1.0"
edition = "2021"
publish = false

[dependencies]
num = "=0.4.3"
bstr = "=1.13.1"
array-init = "=2.1.0"
indexmap = { version = "=2.14.2", features = ["serde"] }
serde = { version = "=1.0.229", features = ["derive"] }
