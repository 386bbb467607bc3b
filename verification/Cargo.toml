[package]
name = "dispatch"
version = "0.1.0"
edition = "2021"
publish = false

[dependencies]
clap = { version = "*", features = ["derive"] }
csv = "*"
lettre = "*"
rpassword = "*"
serde = { version = "*", features = ["derive"] }
serde_json = "*"
