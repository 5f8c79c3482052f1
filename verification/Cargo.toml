[package]
name = "cache_arena"
version = "0.1.0"
edition = "2021"
publish = false

[dependencies]
smallvec = "1"
safe_arith = "*"
ethereum_ssz = "*"
ethereum_ssz_derive = "*"
