[package]
name = "plonk_core"
version = "0.1.0"
edition = "2021"
publish = false

[dependencies]
bls12_381 = "=0.8.0"
ff = "=0.13.1"
group = "=0.13.0"
rand_core = "=0.6.4"

[dev-dependencies]
rand = "=0.8.8"
