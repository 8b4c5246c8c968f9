[package]
name = "rhai"
version = "0.1.0"
edition = "2021"
publish = false

[dependencies]
ahash = { version = "0.7", default-features = false }
smallvec = "1.6"
