[package]
name = "rt-evm"
version = "0.1.0"
edition = "2021"
publish = false

[dependencies]
ethereum-types = "=0.14.1"
evm = "=0.37.0"
faster-hex = "=1.0.0"
hash-db = "=0.15.2"
keccak-hasher = "=0.15.3"
once_cell = "=1.21.4"
ophelia = "=0.3.4"
ophelia-secp256k1 = "=0.3.9"
parking_lot = "=0.13.0"
rlp = "=0.5.2"
ruc = { version = "=5.1.8", features = ["crypto"] }
