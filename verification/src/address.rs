//! Segwit version-0 address encoding for scripts and single keys.
//!
//! A multisig script is addressed by the SHA-256 of its bytes (P2WSH, a
//! 32-byte program); a single key by the HASH160 of its serialization
//! (P2WPKH, a 20-byte program). Every network tag has a defined encoding, so
//! encoding never fails; script addresses come out strictly longer than
//! single-key addresses on the same network.

use vstd::prelude::*;
use crate::beacon::{canon_lo, canon_hi};
use crate::crypto::{sha256, sha256_of, hash160, hash160_of};
use crate::errors::Error;
use crate::keymat::{CurvePoint, Network, hrp_bytes};
use crate::script::{multisig_script, multisig_script_spec};

verus! {

/// The bech32 encoding of a version-0 witness program under a prefix: the
/// ASCII bytes of the address. A fixed function of prefix and program.
pub uninterp spec fn segwit_v0_of(hrp: Seq<u8>, program: Seq<u8>) -> Seq<u8>;

/// Relies on bitcoin::Address::from_witness_program (with
/// WitnessProgram::new converting the program): the bech32 address consists
/// of the network prefix, the separator '1', the version-0 character 'q',
/// five-bits-per-character program data and six checksum characters, so its
/// byte length is the prefix length plus `8 + ceil(8 * program_len / 5)`; it
/// is a fixed function of prefix and program.
#[verifier::external_body]
fn segwit_v0_address(program: &Vec<u8>, network: Network) -> (r: Vec<u8>)
    requires
        program@.len() == 20 || program@.len() == 32,
    ensures
        r@ == segwit_v0_of(hrp_bytes(network), program@),
        r@.len() == hrp_bytes(network).len() + 8 + (program@.len() * 8 + 4) / 5,
        forall|i: int| 0 <= i < hrp_bytes(network).len() ==> r@[i] == hrp_bytes(network)[i],
        r@[hrp_bytes(network).len() as int] == 49u8,
        r@[hrp_bytes(network).len() as int + 1] == 113u8,
{
    let net = match network {
        Network::Main => bitcoin::Network::Bitcoin,
        Network::Test => bitcoin::Network::Testnet,
        Network::Signet => bitcoin::Network::Signet,
        Network::Regtest => bitcoin::Network::Regtest,
    };
    let witness_program = bitcoin::blockdata::script::witness_program::WitnessProgram::new(
        bitcoin::blockdata::script::witness_version::WitnessVersion::V0,
        program.as_slice(),
    ).expect("program length is 20 or 32");
    let address = bitcoin::Address::from_witness_program(witness_program, net);
    address.to_string().into_bytes()
}

/// Encodes a script's P2WSH address: the network prefix followed by the
/// bech32 form of the script's SHA-256.
pub fn encode_script_address(script: &Vec<u8>, network: Network) -> (r: Vec<u8>)
    ensures
        r@ == segwit_v0_of(hrp_bytes(network), sha256_of(script@)),
        r@.len() == hrp_bytes(network).len() + 60,
        forall|i: int| 0 <= i < hrp_bytes(network).len() ==> r@[i] == hrp_bytes(network)[i],
        r@[hrp_bytes(network).len() as int] == 49u8,
        r@[hrp_bytes(network).len() as int + 1] == 113u8,
{
    let program = sha256(script);
    segwit_v0_address(&program, network)
}

/// Encodes a single key's P2WPKH address: the network prefix followed by the
/// bech32 form of the key's HASH160. Shorter than any script address of the
/// same network.
pub fn encode_key_address(key: &CurvePoint, network: Network) -> (r: Vec<u8>)
    ensures
        r@ == segwit_v0_of(hrp_bytes(network), hash160_of(key@)),
        r@.len() == hrp_bytes(network).len() + 40,
        forall|i: int| 0 <= i < hrp_bytes(network).len() ==> r@[i] == hrp_bytes(network)[i],
        r@[hrp_bytes(network).len() as int] == 49u8,
        r@[hrp_bytes(network).len() as int + 1] == 113u8,
{
    let program = hash160(key.as_bytes());
    segwit_v0_address(&program, network)
}

/// The script behind a beacon pair's address: the canonical 2-of-2 multisig
/// over the two keys in sorted order.
pub open spec fn beacon_script_spec(a: Seq<u8>, b: Seq<u8>) -> Seq<u8> {
    multisig_script_spec(2, seq![canon_lo(a, b), canon_hi(a, b)])
}

/// Creates the P2WSH address of the 2-of-2 multisig over two beacon keys.
///
/// The keys are sorted byte-lexicographically before entering the script, so
/// the address too is independent of argument order. Every network tag has a
/// defined encoding: the call always succeeds.
pub fn create_beacon_address(beacon_key1: &CurvePoint, beacon_key2: &CurvePoint, network: Network)
    -> (r: Result<Vec<u8>, Error>)
    requires
        beacon_key1.wf(),
        beacon_key2.wf(),
    ensures
        r matches Ok(v) && v@ == segwit_v0_of(
            hrp_bytes(network),
            sha256_of(beacon_script_spec(beacon_key1@, beacon_key2@)),
        ),
        r matches Ok(v) && v@.len() == hrp_bytes(network).len() + 60,
        r matches Ok(v) && (forall|i: int| 0 <= i < hrp_bytes(network).len()
            ==> v@[i] == hrp_bytes(network)[i]),
        r matches Ok(v) && v@[hrp_bytes(network).len() as int] == 49u8,
        r matches Ok(v) && v@[hrp_bytes(network).len() as int + 1] == 113u8,
{
    let a = beacon_key1.as_bytes();
    let b = beacon_key2.as_bytes();
    let (lo, hi) = if crate::bytes::lex_le_bytes(a, b) {
        (a, b)
    } else {
        (b, a)
    };
    let mut keys: Vec<Vec<u8>> = Vec::new();
    keys.push(copy_bytes(lo));
    keys.push(copy_bytes(hi));
    let script = multisig_script(&keys, 2);
    proof {
        assert(keys@.map_values(|k: Vec<u8>| k@)
            =~= seq![canon_lo(beacon_key1@, beacon_key2@), canon_hi(beacon_key1@, beacon_key2@)]);
    }
    Ok(encode_script_address(&script, network))
}

/// An owned copy of a byte vector.
pub(crate) fn copy_bytes(a: &Vec<u8>) -> (r: Vec<u8>)
    ensures
        r@ == a@,
{
    let mut r: Vec<u8> = Vec::new();
    let n: usize = a.len();
    let mut i: usize = 0;
    while i < n
        invariant
            i <= n,
            n == a@.len(),
            r@ =~= a@.take(i as int),
        decreases n - i,
    {
        r.push(a[i]);
        i = i + 1;
        proof {
            assert(r@ =~= a@.take(i as int));
        }
    }
    proof {
        assert(a@.take(n as int) =~= a@);
    }
    r
}

} // verus!
