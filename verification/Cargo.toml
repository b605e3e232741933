[package]
name = "auther"
version = "0.1.0"
edition = "2021"
publish = false

[dependencies]
sha2 = "*"
rand_core = "*"
rand_hc = "*"
dirs = "*"
toml = "*"
magic-crypt = "*"
serde = { version = "*", features = ["derive"] }
