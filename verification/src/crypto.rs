//! Trusted wrappers around the hash and curve primitives.
//!
//! Everything verified about derivation rests on the contracts here; each
//! wrapper's body only calls the named outside function and converts its
//! arguments and result.

use vstd::prelude::*;
use crate::bytes::{be_uint, bytes_equal};
use crate::errors::Error;

verus! {

/// The SHA-256 digest of a byte string: a fixed function of the input alone.
pub uninterp spec fn sha256_of(data: Seq<u8>) -> Seq<u8>;

/// Relies on bitcoin::hashes::sha256: the digest is 32 bytes and depends on
/// the input bytes alone.
#[verifier::external_body]
pub fn sha256(data: &Vec<u8>) -> (r: Vec<u8>)
    ensures
        r@ == sha256_of(data@),
        r@.len() == 32,
{
    let h = <bitcoin::hashes::sha256::Hash as bitcoin::hashes::Hash>::hash(data.as_slice());
    <bitcoin::hashes::sha256::Hash as bitcoin::hashes::Hash>::to_byte_array(h).to_vec()
}

/// The HASH160 (SHA-256 then RIPEMD-160) digest of a byte string.
pub uninterp spec fn hash160_of(data: Seq<u8>) -> Seq<u8>;

/// Relies on bitcoin::hashes::hash160: the digest is 20 bytes and depends on
/// the input bytes alone.
#[verifier::external_body]
pub fn hash160(data: &Vec<u8>) -> (r: Vec<u8>)
    ensures
        r@ == hash160_of(data@),
        r@.len() == 20,
{
    let h = <bitcoin::hashes::hash160::Hash as bitcoin::hashes::Hash>::hash(data.as_slice());
    <bitcoin::hashes::hash160::Hash as bitcoin::hashes::Hash>::to_byte_array(h).to_vec()
}

/// The big-endian bytes of the secp256k1 group order `n`.
pub open spec fn secp_order_seq() -> Seq<u8> {
    seq![
        0xffu8, 0xffu8, 0xffu8, 0xffu8, 0xffu8, 0xffu8, 0xffu8, 0xffu8,
        0xffu8, 0xffu8, 0xffu8, 0xffu8, 0xffu8, 0xffu8, 0xffu8, 0xfeu8,
        0xbau8, 0xaeu8, 0xdcu8, 0xe6u8, 0xafu8, 0x48u8, 0xa0u8, 0x3bu8,
        0xbfu8, 0xd2u8, 0x5eu8, 0x8cu8, 0xd0u8, 0x36u8, 0x41u8, 0x41u8,
    ]
}

/// A 32-byte big-endian scalar lies in `[1, n-1]`.
pub open spec fn scalar_in_range(t: Seq<u8>) -> bool {
    1 <= be_uint(t) && be_uint(t) < be_uint(secp_order_seq())
}

/// What adding `t * G` to the point serialized as `p` yields: `Some` of the
/// compressed serialization of the sum, or `None` when `p` does not decode to
/// a curve point or the sum is the identity element. A fixed function of the
/// two byte strings alone.
pub uninterp spec fn tweak_outcome(p: Seq<u8>, t: Seq<u8>) -> Option<Seq<u8>>;

/// Relies on secp256k1::PublicKey::add_exp_tweak (with PublicKey::from_slice,
/// Scalar::from_be_bytes and PublicKey::serialize converting at either end):
/// the sum is a fixed function of point and scalar, serialized compressed as
/// 33 bytes led by 0x02 or 0x03; the call fails only on a malformed point or
/// an identity-element result, the scalar being in range by precondition.
/// The sum differs from the point it tweaks: for a scalar in `[1, n-1]` the
/// added generator multiple is never the identity, and serialization is
/// injective on curve points.
#[verifier::external_body]
pub fn tweak_add(p: &Vec<u8>, t: &Vec<u8>) -> (r: Result<Vec<u8>, Error>)
    requires
        t@.len() == 32,
        scalar_in_range(t@),
    ensures
        r matches Ok(v) ==> tweak_outcome(p@, t@) == Some(v@)
            && v@.len() == 33 && (v@[0] == 0x02 || v@[0] == 0x03),
        r matches Ok(v) ==> v@ != p@,
        r is Ok <==> tweak_outcome(p@, t@) is Some,
        r matches Err(e) ==> e == Error::InvalidPoint,
{
    let arr: [u8; 32] = t.as_slice().try_into().expect("length is 32");
    let point = match secp256k1::PublicKey::from_slice(p.as_slice()) {
        Ok(point) => point,
        Err(_) => return Err(Error::InvalidPoint),
    };
    let scalar = match secp256k1::Scalar::from_be_bytes(arr) {
        Ok(scalar) => scalar,
        Err(_) => return Err(Error::InvalidTweak),
    };
    match point.add_exp_tweak(&scalar) {
        Ok(sum) => Ok(sum.serialize().to_vec()),
        Err(_) => Err(Error::InvalidPoint),
    }
}

/// The compressed public key belonging to a 32-byte secret scalar, or `None`
/// when the scalar is zero or not below the group order.
pub uninterp spec fn pubkey_of(secret: Seq<u8>) -> Option<Seq<u8>>;

/// Relies on secp256k1::PublicKey::from_secret_key (with
/// SecretKey::from_secret_bytes and PublicKey::serialize converting at either
/// end): the key is a fixed function of the secret bytes, serialized
/// compressed as 33 bytes led by 0x02 or 0x03; only an out-of-range secret is
/// refused.
#[verifier::external_body]
pub fn pubkey_from_secret(secret: &Vec<u8>) -> (r: Result<Vec<u8>, Error>)
    requires
        secret@.len() == 32,
    ensures
        r matches Ok(v) ==> pubkey_of(secret@) == Some(v@)
            && v@.len() == 33 && (v@[0] == 0x02 || v@[0] == 0x03),
        r is Ok <==> pubkey_of(secret@) is Some,
        r matches Err(e) ==> e == Error::InvalidTweak,
{
    let arr: [u8; 32] = secret.as_slice().try_into().expect("length is 32");
    let sk = match secp256k1::SecretKey::from_secret_bytes(arr) {
        Ok(sk) => sk,
        Err(_) => return Err(Error::InvalidTweak),
    };
    Ok(secp256k1::PublicKey::from_secret_key(&sk).serialize().to_vec())
}

/// Relies on the rand crate's thread-local CSPRNG re-exported by secp256k1:
/// nothing is assumed of the drawn bytes but their count.
#[verifier::external_body]
pub fn random_seed32() -> (r: Vec<u8>)
    ensures
        r@.len() == 32,
{
    let mut seed = [0u8; 32];
    secp256k1::rand::RngCore::fill_bytes(&mut secp256k1::rand::rng(), &mut seed);
    seed.to_vec()
}

/// The comparison against the order bytes decides membership in `[1, n-1]`.
pub fn check_scalar_in_range(t: &Vec<u8>) -> (r: bool)
    requires
        t@.len() == 32,
    ensures
        r == scalar_in_range(t@),
{
    let order: Vec<u8> = order_bytes();
    let below: bool = crate::bytes::lex_le_bytes(t, &order) && !bytes_equal(t, &order);
    let zero: Vec<u8> = zero_bytes32();
    let nonzero: bool = !bytes_equal(t, &zero);
    proof {
        crate::bytes::lemma_lex_is_numeric(t@, secp_order_seq());
        if be_uint(t@) == be_uint(secp_order_seq()) {
            crate::bytes::lemma_be_uint_injective(t@, secp_order_seq());
        }
        lemma_zero32_value();
        if be_uint(t@) == 0 {
            crate::bytes::lemma_be_uint_injective(t@, zero32_seq());
        }
    }
    below && nonzero
}

/// All-zero 32-byte string.
pub open spec fn zero32_seq() -> Seq<u8> {
    Seq::new(32, |i: int| 0u8)
}

proof fn lemma_zero32_value()
    ensures
        be_uint(zero32_seq()) == 0,
{
    lemma_zeros_value(32);
}

proof fn lemma_zeros_value(n: nat)
    ensures
        be_uint(Seq::new(n, |i: int| 0u8)) == 0,
    decreases n,
{
    let s = Seq::new(n, |i: int| 0u8);
    if n == 0 {
    } else {
        lemma_zeros_value((n - 1) as nat);
        assert(s.drop_first() =~= Seq::new((n - 1) as nat, |i: int| 0u8));
        assert(be_uint(s) == 0 * crate::bytes::pow256((n - 1) as nat) + be_uint(s.drop_first()));
    }
}

/// The order bytes as a vector.
fn order_bytes() -> (r: Vec<u8>)
    ensures
        r@ =~= secp_order_seq(),
{
    let mut v: Vec<u8> = Vec::new();
    let head: [u8; 16] = [
        0xff, 0xff, 0xff, 0xff, 0xff, 0xff, 0xff, 0xff,
        0xff, 0xff, 0xff, 0xff, 0xff, 0xff, 0xff, 0xfe,
    ];
    let tail: [u8; 16] = [
        0xba, 0xae, 0xdc, 0xe6, 0xaf, 0x48, 0xa0, 0x3b,
        0xbf, 0xd2, 0x5e, 0x8c, 0xd0, 0x36, 0x41, 0x41,
    ];
    let mut i: usize = 0;
    while i < 16
        invariant
            i <= 16,
            v@.len() == i,
            forall|j: int| 0 <= j < i ==> v@[j] == head@[j],
        decreases 16 - i,
    {
        v.push(head[i]);
        i = i + 1;
    }
    let mut k: usize = 0;
    while k < 16
        invariant
            k <= 16,
            v@.len() == 16 + k,
            forall|j: int| 0 <= j < 16 ==> v@[j] == head@[j],
            forall|j: int| 0 <= j < k ==> v@[16 + j] == tail@[j],
        decreases 16 - k,
    {
        v.push(tail[k]);
        k = k + 1;
    }
    proof {
        assert forall|j: int| 0 <= j < 32 implies v@[j] == secp_order_seq()[j] by {
            if j < 16 {
            }
        }
    }
    v
}

/// The all-zero 32-byte vector.
fn zero_bytes32() -> (r: Vec<u8>)
    ensures
        r@ =~= zero32_seq(),
{
    let mut v: Vec<u8> = Vec::new();
    let mut i: usize = 0;
    while i < 32
        invariant
            i <= 32,
            v@.len() == i,
            forall|j: int| 0 <= j < i ==> v@[j] == 0u8,
        decreases 32 - i,
    {
        v.push(0u8);
        i = i + 1;
    }
    v
}

} // verus!
