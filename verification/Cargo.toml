[package]
name = "id_wrapper"
version = "0.1.0"
edition = "2021"
publish = false

[dependencies]
nanoid = "*"
syn = { version = "*", features = ["full"] }
quote = "*"
