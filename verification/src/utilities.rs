//! Network-name parsing and stand-alone key generation.

use vstd::prelude::*;
use vstd::string::StringExecFns;
use crate::crypto::{pubkey_of, pubkey_from_secret, random_seed32};
use crate::errors::Error;
use crate::keygen::master_seed_ok;
use crate::keymat::{CurvePoint, Network};

verus! {

/// The case folding str::to_lowercase performs: a fixed function of the
/// characters alone.
pub uninterp spec fn lower_of(s: Seq<char>) -> Seq<char>;

/// Relies on str::to_lowercase: the result depends on the characters alone.
#[verifier::external_body]
fn lowercase(s: &str) -> (r: String)
    ensures
        r@ == lower_of(s@),
{
    s.to_lowercase()
}

/// Which network a lower-cased name denotes.
pub open spec fn network_of_name(t: Seq<char>) -> Option<Network> {
    if t == "bitcoin"@ {
        Some(Network::Main)
    } else if t == "testnet"@ {
        Some(Network::Test)
    } else if t == "signet"@ {
        Some(Network::Signet)
    } else if t == "regtest"@ {
        Some(Network::Regtest)
    } else {
        None
    }
}

/// String equality against a literal.
fn str_is(a: &String, lit: &str) -> (r: bool)
    ensures
        r == (a@ == lit@),
{
    let other = String::from_str(lit);
    a.eq(&other)
}

/// Maps a network name, case-insensitively, to its tag.
///
/// Accepts exactly the four known names after lower-casing; every other
/// string is refused as `UnsupportedNetwork`.
pub fn get_network_from_string(network: &str) -> (r: Result<Network, Error>)
    ensures
        r matches Ok(n) ==> network_of_name(lower_of(network@)) == Some(n),
        r is Ok <==> network_of_name(lower_of(network@)) is Some,
        r matches Err(e) ==> e == Error::UnsupportedNetwork,
{
    let lowered = lowercase(network);
    if str_is(&lowered, "bitcoin") {
        Ok(Network::Main)
    } else if str_is(&lowered, "testnet") {
        Ok(Network::Test)
    } else if str_is(&lowered, "signet") {
        Ok(Network::Signet)
    } else if str_is(&lowered, "regtest") {
        Ok(Network::Regtest)
    } else {
        Err(Error::UnsupportedNetwork)
    }
}

/// The textual master extended public key of a seed; the flag tells the
/// mainnet encoding from the testnet one. A fixed function of both.
pub uninterp spec fn master_xpub_text_of(main: bool, seed: Seq<u8>) -> Seq<char>;

/// Relies on bitcoin::bip32::Xpriv::new_master, Xpub::from_priv and Xpub's
/// Display: the master xpub text is a fixed function of network kind and
/// seed, and derivation refuses exactly the negligible seed set the master
/// derivation refuses.
#[verifier::external_body]
fn master_xpub_text(network: Network, seed: &Vec<u8>) -> (r: Result<String, Error>)
    requires
        seed@.len() == 32,
    ensures
        r is Ok <==> master_seed_ok(seed@),
        r matches Ok(v) ==> v@ == master_xpub_text_of(network == Network::Main, seed@)
            && v@.len() >= 1,
        r matches Err(e) ==> e == Error::InvalidTweak,
{
    let kind = if matches!(network, Network::Main) {
        bitcoin::NetworkKind::Main
    } else {
        bitcoin::NetworkKind::Test
    };
    let master = match bitcoin::bip32::Xpriv::new_master(kind, seed.as_slice()) {
        Ok(x) => x,
        Err(_) => return Err(Error::InvalidTweak),
    };
    let secp = bitcoin::secp256k1::Secp256k1::new();
    Ok(bitcoin::bip32::Xpub::from_priv(&secp, &master).to_string())
}

/// The BIP-39 phrase of an entropy string: a fixed function of the bytes
/// (32 bytes of entropy yield a 24-word English phrase).
pub uninterp spec fn mnemonic_of(entropy: Seq<u8>) -> Seq<char>;

/// Relies on bip39::Mnemonic::from_entropy and its Display: the phrase is a
/// fixed function of the entropy, and 32 bytes are always accepted.
#[verifier::external_body]
fn mnemonic_from_entropy(entropy: &Vec<u8>) -> (r: String)
    requires
        entropy@.len() == 32,
    ensures
        r@ == mnemonic_of(entropy@),
{
    bip39::Mnemonic::from_entropy(entropy.as_slice())
        .expect("32 bytes of entropy are accepted")
        .to_string()
}

/// Derives, from one 32-byte seed: the master extended public key's text,
/// the seed's mnemonic phrase, and the public key of the seed read as a
/// secret scalar — each a fixed function of the seed (and, for the xpub
/// text, the network kind).
///
/// Fails only in the negligible cases that the master derivation or the
/// scalar refuses the seed.
pub fn generate_from_seed(network: Network, seed: &Vec<u8>) -> (r: Result<
    (String, String, CurvePoint),
    Error,
>)
    requires
        seed@.len() == 32,
    ensures
        r is Ok <==> (master_seed_ok(seed@) && pubkey_of(seed@) is Some),
        r matches Ok(t) ==> t.0@ == master_xpub_text_of(network == Network::Main, seed@)
            && t.1@ == mnemonic_of(seed@) && Some(t.2@) == pubkey_of(seed@)
            && t.2.wf() && t.0@.len() >= 1,
        r matches Err(e) ==> e == Error::InvalidTweak,
{
    let xpub = match master_xpub_text(network, seed) {
        Ok(v) => v,
        Err(e) => {
            return Err(e);
        },
    };
    let mnemonic = mnemonic_from_entropy(seed);
    let point_bytes = match pubkey_from_secret(seed) {
        Ok(v) => v,
        Err(e) => {
            return Err(e);
        },
    };
    let point = CurvePoint::from_wf_bytes(point_bytes);
    Ok((xpub, mnemonic, point))
}

/// Draws a fresh random seed and derives master xpub text, mnemonic and
/// public key from it, as `generate_from_seed` does.
pub fn generate_random_xpub_and_mnemonic(network: Network) -> (r: Result<
    (String, String, CurvePoint),
    Error,
>)
    ensures
        r matches Ok(t) ==> t.2.wf() && t.0@.len() >= 1,
        r matches Err(e) ==> e == Error::InvalidTweak,
{
    let seed = random_seed32();
    generate_from_seed(network, &seed)
}

} // verus!
