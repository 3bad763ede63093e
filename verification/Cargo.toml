[package]
name = "zksolc"
version = "0.1.0"
edition = "2021"
publish = false

[dependencies]
anyhow = "*"
hex = "*"
rayon = "*"
semver = "*"
serde = { version = "*", features = ["derive"] }
serde_json = "*"
