[package]
name = "recipe_nft_backend"
version = "0.1.0"
edition = "2021"
publish = false

[dependencies]
candid = "=0.10.39"
ic-cdk = "=0.20.3"
ic-stable-structures = "=0.7.2"
serde = { version = "=1.0.229", features = ["derive"] }
validator = { version = "=0.21.0", features = ["derive"] }
