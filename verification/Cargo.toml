[package]
name = "bulletproofs_core"
version = "0.1.0"
edition = "2021"
publish = false

[dependencies]
curve25519-dalek = "=3.2.1"
sha3 = "0.9"
sha2 = "0.9"
solana-program = "1.14"
