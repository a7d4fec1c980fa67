[package]
name = "chia_vault_recover"
version = "0.1.0"
edition = "2021"
publish = false

[dependencies]
bech32 = "=0.11.1"
chia-protocol = "=0.52.1"
chia-sdk-driver = "=0.37.1"
chia-sdk-types = "=0.37.1"
clvm-traits = "=0.52.1"
clvm-utils = "=0.52.1"
clvmr = "=0.21.0"

[dev-dependencies]
hex = "=0.4.3"
chia-bls = "=0.52.1"
chia-secp = "=0.52.1"
