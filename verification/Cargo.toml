[package]
name = "sapling_digest"
version = "0.1.0"
edition = "2021"
publish = false

[dependencies]
blake2b_simd = "*"
sha2 = "*"
ripemd = "*"
bs58 = "*"
zcash_protocol = "*"
ledger_device_sdk = "*"
