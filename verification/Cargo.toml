[package]
name = "bitcoin_multisig_wallet"
version = "0.1.0"
edition = "2021"
publish = false

[dependencies]
anyhow = "=1.0.104"
bdk_esplora = { version = "=0.22.2", features = ["blocking"] }
bdk_wallet = "=3.2.0"
bip39 = "=3.0.0"
bitcoin = "=0.32.102"
clap = { version = "=4.6.7", features = ["derive"] }
dirs = "=7.0.0"
dotenv = "=0.15.0"
esplora-client = "=0.13.0"
miniscript = "=13.1.0"
secp256k1 = { version = "=0.33.1", features = ["rand"] }
serde = { version = "=1.0.229", features = ["derive"] }
serde_json = "=1.0.151"
