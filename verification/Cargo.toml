[package]
name = "futer"
version = "0.1.0"
edition = "2021"
publish = false

[dependencies]
rustix = { version = "=1.1.5", features = ["thread"] }
libc = "=0.2.191"
