[package]
name = "mnemonic_entropy"
version = "0.1.0"
edition = "2021"
publish = false

[dependencies]
bip39 = "*"
hex = "*"
rayon = "*"
indicatif = "*"
clap = { version = "*", features = ["derive"] }
