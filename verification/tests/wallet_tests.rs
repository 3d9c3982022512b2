use bitcoin_multisig_wallet::errors::Error;
use bitcoin_multisig_wallet::keymat::Network;
use bitcoin_multisig_wallet::wallet::parse_policy;
use bitcoin_multisig_wallet::MultisigWallet;

fn xpub_text(seed_byte: u8) -> Vec<u8> {
    let secp = bitcoin::secp256k1::Secp256k1::new();
    let mut seed = [0u8; 32];
    seed[0] = seed_byte;
    seed[31] = 0x7f;
    let xprv = bitcoin::bip32::Xpriv::new_master(bitcoin::Network::Testnet, &seed).unwrap();
    bitcoin::bip32::Xpub::from_priv(&secp, &xprv).to_string().into_bytes()
}

#[test]
fn test_multisig_wallet_lifecycle() {
    let xpubs = vec![xpub_text(1), xpub_text(2), xpub_text(3)];
    let wallet = MultisigWallet::new(xpubs.clone(), 2, Network::Test).unwrap();

    // The policy string re-parses to the same threshold and the same keys.
    let (threshold, keys) = parse_policy(wallet.descriptor()).unwrap();
    assert_eq!(threshold, 2);
    assert_eq!(&keys, wallet.xpubs());
    assert_eq!(keys, xpubs);
    let (threshold2, keys2) = wallet.reparse().unwrap();
    assert_eq!(threshold2, 2);
    assert_eq!(keys2, keys);

    let addr = wallet.get_new_address().unwrap();
    assert!(String::from_utf8(addr).unwrap().starts_with("tb1"));
}

#[test]
fn test_policy_string_is_a_valid_descriptor() {
    // miniscript itself must accept the policy string, checksum included.
    let xpubs = vec![xpub_text(4), xpub_text(5), xpub_text(6)];
    let wallet = MultisigWallet::new(xpubs, 2, Network::Test).unwrap();
    let text = String::from_utf8(wallet.descriptor().clone()).unwrap();
    let parsed = text
        .parse::<miniscript::Descriptor<miniscript::DescriptorPublicKey>>();
    assert!(parsed.is_ok(), "{:?}", parsed.err());
    assert!(text.starts_with("wsh(multi(2,"));
    assert_eq!(text.as_bytes()[text.len() - 9], b'#');
}

#[test]
fn test_policy_order_sensitivity() {
    let x = xpub_text(7);
    let y = xpub_text(8);
    let w_xy = MultisigWallet::new(vec![x.clone(), y.clone()], 2, Network::Test).unwrap();
    let w_yx = MultisigWallet::new(vec![y, x], 2, Network::Test).unwrap();
    assert_ne!(w_xy.descriptor(), w_yx.descriptor());
    assert_ne!(
        w_xy.get_new_address().unwrap(),
        w_yx.get_new_address().unwrap()
    );
}

#[test]
fn test_threshold_validation() {
    let keys = vec![xpub_text(9), xpub_text(10)];
    for m in 3usize..=6 {
        assert_eq!(
            MultisigWallet::new(keys.clone(), m, Network::Test).unwrap_err(),
            Error::ThresholdExceedsKeyCount
        );
    }
    assert_eq!(
        MultisigWallet::new(Vec::new(), 1, Network::Test).unwrap_err(),
        Error::ThresholdExceedsKeyCount
    );
    assert_eq!(
        MultisigWallet::new(keys.clone(), 0, Network::Test).unwrap_err(),
        Error::ThresholdExceedsKeyCount
    );
}

#[test]
fn test_invalid_key_encoding() {
    let bad = b"not-an-extended-key".to_vec();
    assert_eq!(
        MultisigWallet::new(vec![bad], 1, Network::Test).unwrap_err(),
        Error::InvalidKeyEncoding
    );
}

#[test]
fn test_parse_rejects_tampering() {
    let wallet =
        MultisigWallet::new(vec![xpub_text(11), xpub_text(12)], 2, Network::Test).unwrap();
    let good = wallet.descriptor().clone();
    assert!(parse_policy(&good).is_some());

    // A corrupted checksum character must be refused.
    let mut bad_checksum = good.clone();
    let last = bad_checksum.len() - 1;
    bad_checksum[last] = if bad_checksum[last] == b'q' { b'p' } else { b'q' };
    assert!(parse_policy(&bad_checksum).is_none());

    // A corrupted body must be refused too: its checksum no longer matches.
    let mut bad_body = good.clone();
    bad_body[11] = if bad_body[11] == b'2' { b'3' } else { b'2' };
    assert!(parse_policy(&bad_body).is_none());

    assert!(parse_policy(&b"wsh(multi(2))".to_vec()).is_none());
    assert!(parse_policy(&Vec::new()).is_none());
}

#[test]
fn test_wallet_address_matches_bitcoin_derivation() {
    // Recompute the first receive address with the bitcoin crate alone.
    let xpubs = vec![xpub_text(13), xpub_text(14), xpub_text(15)];
    let wallet = MultisigWallet::new(xpubs.clone(), 2, Network::Test).unwrap();
    let ours = String::from_utf8(wallet.get_new_address().unwrap()).unwrap();

    let secp = bitcoin::secp256k1::Secp256k1::new();
    let mut builder = bitcoin::script::Builder::new().push_int(2);
    for xpub in &xpubs {
        let parsed: bitcoin::bip32::Xpub =
            String::from_utf8(xpub.clone()).unwrap().parse().unwrap();
        let path = [
            bitcoin::bip32::ChildNumber::from_normal_idx(0).unwrap(),
            bitcoin::bip32::ChildNumber::from_normal_idx(0).unwrap(),
        ];
        let child = parsed.derive_pub(&secp, &path).unwrap();
        let key = bitcoin::key::PublicKey::from_slice(&child.public_key.serialize()).unwrap();
        builder = builder.push_key(&key);
    }
    let script = builder
        .push_int(3)
        .push_opcode(bitcoin::opcodes::all::OP_CHECKMULTISIG)
        .into_script();
    let expected = bitcoin::Address::p2wsh(&script, bitcoin::Network::Testnet);
    assert_eq!(ours, expected.to_string());
}
