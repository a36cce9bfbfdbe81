[package]
name = "blrustix"
version = "0.1.0"
edition = "2021"
publish = false

[dependencies]
suffix-rs = "*"
byteorder = "*"
serde = { version = "1", features = ["derive"] }
serde_json = "1"
lmdb = "*"
quick-error = "*"
derive_builder = "*"
