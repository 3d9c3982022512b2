//! Deterministic key-derivation and policy-construction logic for a group of
//! Bitcoin co-signers: pairwise beacon-key derivation, canonical M-of-N
//! multisig descriptor construction, segwit address encoding, and account-key
//! generation with a slot-indexed public-key store.

pub mod address;
pub mod beacon;
pub mod bytes;
pub mod crypto;
pub mod dec;
pub mod errors;
pub mod keygen;
pub mod keymat;
pub mod policy;
pub mod script;
pub mod utilities;
pub mod wallet;

pub use address::create_beacon_address;
pub use beacon::derive_beacon_keys;
pub use keygen::KeyGenerator;
pub use wallet::MultisigWallet;
