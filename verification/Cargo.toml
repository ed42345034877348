[package]
name = "lorenz"
version = "0.1.0"
edition = "2021"
publish = false

[dependencies]
itertools = "0.14"
macroquad = { version = "0.4", default-features = false }
