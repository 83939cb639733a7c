[package]
name = "node_handlers"
version = "0.1.0"
edition = "2021"
publish = false

[dependencies]
sha2 = "0.10"
ed25519-dalek = "2"
hex = "0.4"
borsh = "1"
