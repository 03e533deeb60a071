[package]
name = "work_proof"
version = "0.1.0"
edition = "2021"
publish = false

[dependencies]
argon2 = { version = "0.5", default-features = false, features = ["alloc"] }
