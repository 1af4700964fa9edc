[package]
name = "stake_pool"
version = "0.1.0"
edition = "2021"
publish = false

[dependencies]
solana-program = "2"
spl-token = "6"
bincode = "1"
