[package]
name = "chia_vanity"
version = "0.1.0"
edition = "2021"
publish = false

[dependencies]
bech32 = "=0.9.1"
bip39 = "=2.2.2"
chia-bls = "=0.7.0"
chia-wallet = "=0.7.0"
hex = "=0.4.3"
inquire = "=0.9.4"
num_cpus = "=1.17.0"
rand_core = { version = "=0.6.4", features = ["getrandom"] }
sha2 = "=0.10.9"
