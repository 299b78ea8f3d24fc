[package]
name = "anonstake"
version = "0.1.0"
edition = "2021"
publish = false

[dependencies]
bls12_381 = "=0.9.0"
ff = "=0.14.0"
jubjub = "=0.11.1"
sapling-crypto = "=0.9.0"
rand = "=0.10.3"
clap = "=2.34.0"
