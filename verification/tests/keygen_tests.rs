use bitcoin_multisig_wallet::errors::Error;
use bitcoin_multisig_wallet::keymat::Network;
use bitcoin_multisig_wallet::utilities::{generate_from_seed, get_network_from_string};
use bitcoin_multisig_wallet::KeyGenerator;

#[test]
fn test_slot_conflict() {
    let mut keygen = KeyGenerator::new(Network::Test);
    let first = keygen.generate_key(0).unwrap();
    assert_eq!(
        keygen.generate_key(0).unwrap_err(),
        Error::KeyIndexConflict(0)
    );
    let third = keygen.generate_key(1).unwrap();
    assert_ne!(first.xpub, third.xpub);

    // Prior slots are undisturbed and the listing carries no private key.
    let listed = keygen.list_keys();
    assert_eq!(listed.len(), 2);
    assert_eq!(listed[0].xpub, first.xpub);
    assert_eq!(listed[0].fingerprint, first.fingerprint);
    assert_eq!(listed[1].xpub, third.xpub);
    assert!(listed.iter().all(|k| k.xpriv.is_none()));
    assert!(first.xpriv.is_some());
}

#[test]
fn test_generate_key_unsupported_network() {
    let mut keygen = KeyGenerator::new(Network::Signet);
    assert_eq!(
        keygen.generate_key(0).unwrap_err(),
        Error::UnsupportedNetwork
    );
    assert_eq!(keygen.list_keys().len(), 0);
}

#[test]
fn test_generate_key_matches_bitcoin_derivation() {
    // Recompute the stored record with the bitcoin crate alone: master from
    // the seed, hardened path 84'/1'/0' on testnet, then xpub text and
    // fingerprint.
    let mut seed = vec![0u8; 32];
    seed[5] = 0x42;
    let mut keygen = KeyGenerator::new(Network::Test);
    let pair = keygen.generate_key_from_seed(7, &seed).unwrap();

    let secp = bitcoin::secp256k1::Secp256k1::new();
    let master = bitcoin::bip32::Xpriv::new_master(bitcoin::NetworkKind::Test, &seed).unwrap();
    let path = [
        bitcoin::bip32::ChildNumber::from_hardened_idx(84).unwrap(),
        bitcoin::bip32::ChildNumber::from_hardened_idx(1).unwrap(),
        bitcoin::bip32::ChildNumber::from_hardened_idx(0).unwrap(),
    ];
    let account = master.derive_priv(&secp, &path).unwrap();
    let xpub = bitcoin::bip32::Xpub::from_priv(&secp, &account);

    assert_eq!(pair.xpub, xpub.to_string());
    assert_eq!(pair.xpriv.as_deref(), Some(account.to_string().as_str()));
    assert_eq!(pair.fingerprint, account.fingerprint(&secp).to_string());
    assert_eq!(pair.network, Network::Test);
}

#[test]
fn test_mainnet_uses_distinct_coin_type() {
    let mut seed = vec![0u8; 32];
    seed[5] = 0x42;
    let mut main_gen = KeyGenerator::new(Network::Main);
    let main_pair = main_gen.generate_key_from_seed(0, &seed).unwrap();

    let secp = bitcoin::secp256k1::Secp256k1::new();
    let master = bitcoin::bip32::Xpriv::new_master(bitcoin::NetworkKind::Main, &seed).unwrap();
    let path = [
        bitcoin::bip32::ChildNumber::from_hardened_idx(84).unwrap(),
        bitcoin::bip32::ChildNumber::from_hardened_idx(0).unwrap(),
        bitcoin::bip32::ChildNumber::from_hardened_idx(0).unwrap(),
    ];
    let account = master.derive_priv(&secp, &path).unwrap();
    let xpub = bitcoin::bip32::Xpub::from_priv(&secp, &account);
    assert_eq!(main_pair.xpub, xpub.to_string());
    assert!(main_pair.xpub.starts_with("xpub"));
}

#[test]
fn test_network_from_string() {
    assert_eq!(get_network_from_string("bitcoin").unwrap(), Network::Main);
    assert_eq!(get_network_from_string("BitCoin").unwrap(), Network::Main);
    assert_eq!(get_network_from_string("TESTNET").unwrap(), Network::Test);
    assert_eq!(get_network_from_string("signet").unwrap(), Network::Signet);
    assert_eq!(get_network_from_string("Regtest").unwrap(), Network::Regtest);
    assert_eq!(
        get_network_from_string("florin").unwrap_err(),
        Error::UnsupportedNetwork
    );
    assert_eq!(
        get_network_from_string("").unwrap_err(),
        Error::UnsupportedNetwork
    );
}

#[test]
fn test_generate_from_seed_components() {
    let mut seed = vec![0u8; 32];
    seed[0] = 9;
    let (xpub, mnemonic, point) = generate_from_seed(Network::Test, &seed).unwrap();

    // The mnemonic is exactly the phrase of the entropy, 24 words long.
    let expected = bip39::Mnemonic::from_entropy(&seed).unwrap().to_string();
    assert_eq!(mnemonic, expected);
    assert_eq!(mnemonic.split(' ').count(), 24);

    // The public key is the curve point of the seed scalar.
    let mut arr = [0u8; 32];
    arr.copy_from_slice(&seed);
    let sk = secp256k1::SecretKey::from_secret_bytes(arr).unwrap();
    let pk = secp256k1::PublicKey::from_secret_key(&sk);
    assert_eq!(point.as_bytes().as_slice(), &pk.serialize());

    // The xpub text is the master extended public key of the seed.
    let secp = bitcoin::secp256k1::Secp256k1::new();
    let master = bitcoin::bip32::Xpriv::new_master(bitcoin::NetworkKind::Test, &seed).unwrap();
    assert_eq!(xpub, bitcoin::bip32::Xpub::from_priv(&secp, &master).to_string());
}
