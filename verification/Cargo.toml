[package]
name = "ctoken"
version = "0.1.0"
edition = "2021"
publish = false

[dependencies]
borsh = "*"
solana-program = "*"
