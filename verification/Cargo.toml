[package]
name = "rpcalc"
version = "0.1.0"
edition = "2021"
publish = false

[dependencies]
rust_decimal = { version = "*", default-features = false, features = ["std", "maths"] }
