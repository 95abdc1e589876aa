[package]
name = "simcore"
version = "0.1.0"
edition = "2021"
publish = false

[dependencies]
colored = "*"
rustc-hash = "*"
serde = { version = "1", features = ["derive"] }
