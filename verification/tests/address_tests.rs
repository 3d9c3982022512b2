use bitcoin_multisig_wallet::address::{encode_key_address, encode_script_address};
use bitcoin_multisig_wallet::beacon::{BeaconKeyOutput, BeaconMode};
use bitcoin_multisig_wallet::keymat::{CurvePoint, Network};
use bitcoin_multisig_wallet::script::multisig_script;
use bitcoin_multisig_wallet::{create_beacon_address, derive_beacon_keys};

fn point_from_seed(seed_byte: u8) -> CurvePoint {
    let mut seed = [0u8; 32];
    seed[31] = seed_byte;
    let secret_key = secp256k1::SecretKey::from_secret_bytes(seed).unwrap();
    let public_key = secp256k1::PublicKey::from_secret_key(&secret_key);
    CurvePoint::from_bytes(public_key.serialize().to_vec()).unwrap()
}

#[test]
fn test_address_prefixes() {
    let key = point_from_seed(21);
    let cases = [
        (Network::Main, "bc1"),
        (Network::Test, "tb1"),
        (Network::Signet, "tb1"),
        (Network::Regtest, "bcrt1"),
    ];
    for (network, prefix) in cases {
        let single = String::from_utf8(encode_key_address(&key, network)).unwrap();
        assert!(single.starts_with(prefix), "{single}");
        // Witness version 0 puts a 'q' right after the separator.
        assert_eq!(single.as_bytes()[prefix.len()], b'q');

        let other = point_from_seed(22);
        let script_addr = String::from_utf8(
            create_beacon_address(&key, &other, network).unwrap(),
        )
        .unwrap();
        assert!(script_addr.starts_with(prefix), "{script_addr}");

        // Script addresses are strictly longer than single-key addresses.
        assert!(script_addr.len() > single.len());
    }
}

#[test]
fn test_key_address_matches_bitcoin_p2wpkh() {
    let key = point_from_seed(23);
    let ours = String::from_utf8(encode_key_address(&key, Network::Main)).unwrap();
    let compressed =
        bitcoin::CompressedPublicKey::from_slice(key.as_bytes().as_slice()).unwrap();
    let expected = bitcoin::Address::p2wpkh(&compressed, bitcoin::Network::Bitcoin);
    assert_eq!(ours, expected.to_string());
}

#[test]
fn test_script_address_matches_bitcoin_p2wsh() {
    let keys = vec![
        point_from_seed(24).as_bytes().clone(),
        point_from_seed(25).as_bytes().clone(),
        point_from_seed(26).as_bytes().clone(),
    ];
    let script = multisig_script(&keys, 2);
    let ours = String::from_utf8(encode_script_address(&script, Network::Main)).unwrap();
    let expected = bitcoin::Address::p2wsh(
        bitcoin::Script::from_bytes(&script),
        bitcoin::Network::Bitcoin,
    );
    assert_eq!(ours, expected.to_string());
}

#[test]
fn test_multisig_script_exact_bytes() {
    let a = point_from_seed(27);
    let b = point_from_seed(28);
    let keys = vec![a.as_bytes().clone(), b.as_bytes().clone()];
    let script = multisig_script(&keys, 2);

    let mut expected = vec![0x52u8, 0x21];
    expected.extend_from_slice(a.as_bytes());
    expected.push(0x21);
    expected.extend_from_slice(b.as_bytes());
    expected.push(0x52);
    expected.push(0xae);
    assert_eq!(script, expected);
}

#[test]
fn test_end_to_end_beacon_scenario() {
    // Two independently generated keys; their pair derives one script
    // address and a different, shorter single-key address on testnet.
    let a = point_from_seed(29);
    let b = point_from_seed(30);

    let (p1, p2) = match derive_beacon_keys(&a, &b, BeaconMode::Pair).unwrap() {
        BeaconKeyOutput::Pair(p, q) => (p, q),
        BeaconKeyOutput::Single(_) => panic!("pair mode yields a pair"),
    };
    let script_addr =
        String::from_utf8(create_beacon_address(&p1, &p2, Network::Test).unwrap()).unwrap();
    assert!(script_addr.starts_with("tb1"));

    let single = match derive_beacon_keys(&a, &b, BeaconMode::Single).unwrap() {
        BeaconKeyOutput::Single(p) => p,
        BeaconKeyOutput::Pair(_, _) => panic!("single mode yields one key"),
    };
    let single_addr = String::from_utf8(encode_key_address(&single, Network::Test)).unwrap();
    assert!(single_addr.starts_with("tb1"));
    assert_ne!(script_addr, single_addr);
    assert!(single_addr.len() < script_addr.len());
}
