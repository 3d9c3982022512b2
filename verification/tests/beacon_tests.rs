use bitcoin_multisig_wallet::beacon::{BeaconKeyOutput, BeaconMode};
use bitcoin_multisig_wallet::keymat::{CurvePoint, Network};
use bitcoin_multisig_wallet::{create_beacon_address, derive_beacon_keys};

fn point_from_seed(seed_byte: u8) -> CurvePoint {
    let mut seed = [0u8; 32];
    seed[31] = seed_byte;
    let secret_key = secp256k1::SecretKey::from_secret_bytes(seed).unwrap();
    let public_key = secp256k1::PublicKey::from_secret_key(&secret_key);
    CurvePoint::from_bytes(public_key.serialize().to_vec()).unwrap()
}

fn derive_pair(a: &CurvePoint, b: &CurvePoint) -> (CurvePoint, CurvePoint) {
    match derive_beacon_keys(a, b, BeaconMode::Pair).unwrap() {
        BeaconKeyOutput::Pair(p, q) => (p, q),
        BeaconKeyOutput::Single(_) => panic!("pair mode yields a pair"),
    }
}

#[test]
fn test_beacon_key_derivation() {
    let k1 = point_from_seed(1);
    let k2 = point_from_seed(2);

    let (beacon_key1, beacon_key2) = derive_pair(&k1, &k2);

    assert_ne!(beacon_key1.as_bytes(), k1.as_bytes());
    assert_ne!(beacon_key2.as_bytes(), k2.as_bytes());

    let (beacon_key3, beacon_key4) = derive_pair(&k1, &k2);
    assert_eq!(beacon_key1.as_bytes(), beacon_key3.as_bytes());
    assert_eq!(beacon_key2.as_bytes(), beacon_key4.as_bytes());

    let (beacon_key5, beacon_key6) = derive_pair(&k2, &k1);
    assert_eq!(beacon_key1.as_bytes(), beacon_key5.as_bytes());
    assert_eq!(beacon_key2.as_bytes(), beacon_key6.as_bytes());
}

#[test]
fn test_beacon_address() {
    let k1 = point_from_seed(3);
    let k2 = point_from_seed(4);
    let (beacon_key1, beacon_key2) = derive_pair(&k1, &k2);

    let address = create_beacon_address(&beacon_key1, &beacon_key2, Network::Test).unwrap();
    assert!(String::from_utf8(address).unwrap().starts_with("tb1q"));

    let address = create_beacon_address(&beacon_key1, &beacon_key2, Network::Main).unwrap();
    assert!(String::from_utf8(address).unwrap().starts_with("bc1q"));
}

#[test]
fn test_beacon_key_uniqueness() {
    let k1 = point_from_seed(5);
    let k2 = point_from_seed(6);
    let k3 = point_from_seed(7);

    let (beacon_key1_12, _) = derive_pair(&k1, &k2);
    let (beacon_key1_13, _) = derive_pair(&k1, &k3);
    let (beacon_key1_23, _) = derive_pair(&k2, &k3);

    assert_ne!(beacon_key1_12.as_bytes(), beacon_key1_13.as_bytes());
    assert_ne!(beacon_key1_12.as_bytes(), beacon_key1_23.as_bytes());
    assert_ne!(beacon_key1_13.as_bytes(), beacon_key1_23.as_bytes());
}

#[test]
fn test_beacon_key_invalid_input() {
    let k1 = point_from_seed(8);

    let result = derive_beacon_keys(&k1, &k1, BeaconMode::Pair);
    assert!(result.is_ok(), "Should allow same key input, though not recommended");

    let (beacon_key1, beacon_key2) = derive_pair(&k1, &k1);
    let address = create_beacon_address(&beacon_key1, &beacon_key2, Network::Regtest);
    assert!(address.is_ok(), "Should support regtest network");
}

#[test]
fn test_beacon_key_serialization() {
    let k1 = point_from_seed(9);
    let k2 = point_from_seed(10);

    let (beacon_key1, beacon_key2) = derive_pair(&k1, &k2);

    assert_eq!(beacon_key1.as_bytes().len(), 33);
    assert_eq!(beacon_key2.as_bytes().len(), 33);

    let first_byte1 = beacon_key1.as_bytes()[0];
    let first_byte2 = beacon_key2.as_bytes()[0];
    assert!(first_byte1 == 0x02 || first_byte1 == 0x03);
    assert!(first_byte2 == 0x02 || first_byte2 == 0x03);
}

#[test]
fn test_multisig_script() {
    let k1 = point_from_seed(11);
    let k2 = point_from_seed(12);

    let (beacon_key1, beacon_key2) = derive_pair(&k1, &k2);

    let address = create_beacon_address(&beacon_key1, &beacon_key2, Network::Main).unwrap();

    assert!(address.len() > 60);
    assert!(String::from_utf8(address).unwrap().starts_with("bc1q"));
}

#[test]
fn test_beacon_matches_direct_curve_computation() {
    // Recompute the derivation with the curve library alone and compare.
    let k1 = point_from_seed(13);
    let k2 = point_from_seed(14);
    let (beacon_key1, beacon_key2) = derive_pair(&k1, &k2);

    let mut keys = vec![
        k1.as_bytes().as_slice().to_vec(),
        k2.as_bytes().as_slice().to_vec(),
    ];
    keys.sort();
    let mut data = Vec::new();
    data.extend_from_slice(b"threshold-recovery");
    data.extend_from_slice(&keys[0]);
    data.extend_from_slice(&keys[1]);
    let digest = <bitcoin::hashes::sha256::Hash as bitcoin::hashes::Hash>::hash(&data);
    let tweak = secp256k1::Scalar::from_be_bytes(
        <bitcoin::hashes::sha256::Hash as bitcoin::hashes::Hash>::to_byte_array(digest),
    )
    .unwrap();
    let lo = secp256k1::PublicKey::from_slice(&keys[0]).unwrap();
    let hi = secp256k1::PublicKey::from_slice(&keys[1]).unwrap();
    let expected1 = lo.add_exp_tweak(&tweak).unwrap();
    let expected2 = hi.add_exp_tweak(&tweak).unwrap();

    assert_eq!(beacon_key1.as_bytes().as_slice(), &expected1.serialize());
    assert_eq!(beacon_key2.as_bytes().as_slice(), &expected2.serialize());
}

#[test]
fn test_beacon_single_mode_matches_pair_low_key() {
    let k1 = point_from_seed(15);
    let k2 = point_from_seed(16);
    let (beacon_key1, _) = derive_pair(&k1, &k2);
    match derive_beacon_keys(&k1, &k2, BeaconMode::Single).unwrap() {
        BeaconKeyOutput::Single(p) => assert_eq!(p.as_bytes(), beacon_key1.as_bytes()),
        BeaconKeyOutput::Pair(_, _) => panic!("single mode yields one key"),
    }
    // Single mode is commutative too.
    match derive_beacon_keys(&k2, &k1, BeaconMode::Single).unwrap() {
        BeaconKeyOutput::Single(p) => assert_eq!(p.as_bytes(), beacon_key1.as_bytes()),
        BeaconKeyOutput::Pair(_, _) => panic!("single mode yields one key"),
    }
}

#[test]
fn test_beacon_address_matches_bitcoin_p2wsh() {
    // The script and address must agree with the bitcoin crate's own
    // 2-of-2 P2WSH construction over the sorted keys.
    let k1 = point_from_seed(17);
    let k2 = point_from_seed(18);
    let (beacon_key1, beacon_key2) = derive_pair(&k1, &k2);

    let ours = create_beacon_address(&beacon_key1, &beacon_key2, Network::Main).unwrap();

    let btc_key1 =
        bitcoin::key::PublicKey::from_slice(beacon_key1.as_bytes().as_slice()).unwrap();
    let btc_key2 =
        bitcoin::key::PublicKey::from_slice(beacon_key2.as_bytes().as_slice()).unwrap();
    let mut sorted_keys = [btc_key1, btc_key2];
    sorted_keys.sort();
    let redeem_script = bitcoin::script::Builder::new()
        .push_int(2)
        .push_key(&sorted_keys[0])
        .push_key(&sorted_keys[1])
        .push_int(2)
        .push_opcode(bitcoin::opcodes::all::OP_CHECKMULTISIG)
        .into_script();
    let expected = bitcoin::Address::p2wsh(&redeem_script, bitcoin::Network::Bitcoin);
    assert_eq!(String::from_utf8(ours).unwrap(), expected.to_string());
}

#[test]
fn test_curve_point_shape_is_enforced() {
    assert_eq!(
        CurvePoint::from_bytes(vec![0x02; 32]).unwrap_err(),
        bitcoin_multisig_wallet::errors::Error::InvalidPoint
    );
    let mut bad = vec![0x04; 33];
    bad[1] = 0x01;
    assert_eq!(
        CurvePoint::from_bytes(bad).unwrap_err(),
        bitcoin_multisig_wallet::errors::Error::InvalidPoint
    );
}
