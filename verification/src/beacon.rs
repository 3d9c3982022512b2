//! Pairwise, order-independent, domain-separated beacon-key derivation.
//!
//! Two participants' compressed keys are sorted byte-lexicographically, a
//! tweak scalar is taken as the SHA-256 of a domain tag followed by the two
//! sorted serializations, and the tweak (times the generator) is added to the
//! sorted keys. Sorting first makes the function commutative in its two key
//! arguments, which is proved below.

use vstd::prelude::*;
use crate::bytes::{lex_le, lemma_lex_total, lemma_lex_antisym};
use crate::crypto::{sha256, sha256_of, tweak_add, tweak_outcome, scalar_in_range,
    check_scalar_in_range};
use crate::errors::Error;
use crate::keymat::CurvePoint;

verus! {

/// Whether a derivation yields the commutative pair or only the lower key.
#[derive(Clone, Copy, Debug, PartialEq, Eq, Structural)]
pub enum BeaconMode {
    Pair,
    Single,
}

/// What a beacon derivation returns: both tweaked keys, or just one.
#[derive(Debug)]
pub enum BeaconKeyOutput {
    Pair(CurvePoint, CurvePoint),
    Single(CurvePoint),
}

/// The domain-separation tag, the ASCII bytes of "threshold-recovery".
pub open spec fn beacon_tag() -> Seq<u8> {
    seq![
        116u8, 104u8, 114u8, 101u8, 115u8, 104u8, 111u8, 108u8, 100u8,
        45u8, 114u8, 101u8, 99u8, 111u8, 118u8, 101u8, 114u8, 121u8,
    ]
}

/// The lexicographically smaller of the two serializations.
pub open spec fn canon_lo(a: Seq<u8>, b: Seq<u8>) -> Seq<u8> {
    if lex_le(a, b) {
        a
    } else {
        b
    }
}

/// The lexicographically larger of the two serializations.
pub open spec fn canon_hi(a: Seq<u8>, b: Seq<u8>) -> Seq<u8> {
    if lex_le(a, b) {
        b
    } else {
        a
    }
}

/// The tweak: SHA-256 over tag and both keys in canonical order.
pub open spec fn beacon_tweak(a: Seq<u8>, b: Seq<u8>) -> Seq<u8> {
    sha256_of(beacon_tag() + canon_lo(a, b) + canon_hi(a, b))
}

/// The full outcome of a pair-mode derivation on two serializations.
pub open spec fn derive_pair_spec(a: Seq<u8>, b: Seq<u8>) -> Result<(Seq<u8>, Seq<u8>), Error> {
    let t = beacon_tweak(a, b);
    if !scalar_in_range(t) {
        Err(Error::InvalidTweak)
    } else {
        match (tweak_outcome(canon_lo(a, b), t), tweak_outcome(canon_hi(a, b), t)) {
            (Some(p), Some(q)) => Ok((p, q)),
            _ => Err(Error::InvalidPoint),
        }
    }
}

/// The full outcome of a single-mode derivation on two serializations.
pub open spec fn derive_single_spec(a: Seq<u8>, b: Seq<u8>) -> Result<Seq<u8>, Error> {
    let t = beacon_tweak(a, b);
    if !scalar_in_range(t) {
        Err(Error::InvalidTweak)
    } else {
        match tweak_outcome(canon_lo(a, b), t) {
            Some(p) => Ok(p),
            None => Err(Error::InvalidPoint),
        }
    }
}

/// The derived keys are the same whichever way the two inputs are passed.
///
/// Law: for equal-length serializations (all compressed keys are 33 bytes),
/// pair-mode and single-mode derivation are commutative in the two keys.
pub proof fn lemma_derive_commutes(a: Seq<u8>, b: Seq<u8>)
    requires
        a.len() == b.len(),
    ensures
        derive_pair_spec(a, b) == derive_pair_spec(b, a),
        derive_single_spec(a, b) == derive_single_spec(b, a),
{
    lemma_lex_total(a, b);
    if lex_le(a, b) && lex_le(b, a) {
        lemma_lex_antisym(a, b);
    }
    assert(canon_lo(a, b) == canon_lo(b, a));
    assert(canon_hi(a, b) == canon_hi(b, a));
}

/// Derives the beacon key or key pair for two participants' keys.
///
/// The result is a fixed function of the unordered pair of serializations:
/// the same in either argument order, on every call. Both inputs may be the
/// same key. A tweak outside `[1, n-1]` is refused as `InvalidTweak`; a
/// malformed input point or an identity-element sum as `InvalidPoint`. Each
/// derived key differs from the key it was tweaked from.
pub fn derive_beacon_keys(k_i: &CurvePoint, k_j: &CurvePoint, mode: BeaconMode) -> (r: Result<
    BeaconKeyOutput,
    Error,
>)
    requires
        k_i.wf(),
        k_j.wf(),
    ensures
        mode == BeaconMode::Pair ==> (match derive_pair_spec(k_i@, k_j@) {
            Ok(pq) => r matches Ok(BeaconKeyOutput::Pair(p, q)) && p@ == pq.0 && q@ == pq.1
                && p.wf() && q.wf()
                && p@ != canon_lo(k_i@, k_j@) && q@ != canon_hi(k_i@, k_j@),
            Err(e) => r matches Err(e2) && e2 == e,
        }),
        mode == BeaconMode::Single ==> (match derive_single_spec(k_i@, k_j@) {
            Ok(s) => r matches Ok(BeaconKeyOutput::Single(p)) && p@ == s && p.wf()
                && p@ != canon_lo(k_i@, k_j@),
            Err(e) => r matches Err(e2) && e2 == e,
        }),
{
    let a = k_i.as_bytes();
    let b = k_j.as_bytes();
    let (lo, hi) = if crate::bytes::lex_le_bytes(a, b) {
        (a, b)
    } else {
        (b, a)
    };

    let mut data: Vec<u8> = beacon_tag_bytes();
    data.extend_from_slice(lo.as_slice());
    data.extend_from_slice(hi.as_slice());
    proof {
        assert(data@ =~= beacon_tag() + canon_lo(k_i@, k_j@) + canon_hi(k_i@, k_j@));
    }
    let tweak = sha256(&data);

    if !check_scalar_in_range(&tweak) {
        return Err(Error::InvalidTweak);
    }

    let tweaked_lo = match tweak_add(lo, &tweak) {
        Ok(v) => v,
        Err(_) => return Err(Error::InvalidPoint),
    };
    match mode {
        BeaconMode::Single => {
            Ok(BeaconKeyOutput::Single(CurvePoint::from_wf_bytes(tweaked_lo)))
        }
        BeaconMode::Pair => {
            let tweaked_hi = match tweak_add(hi, &tweak) {
                Ok(v) => v,
                Err(_) => return Err(Error::InvalidPoint),
            };
            Ok(BeaconKeyOutput::Pair(
                CurvePoint::from_wf_bytes(tweaked_lo),
                CurvePoint::from_wf_bytes(tweaked_hi),
            ))
        }
    }
}

/// The tag bytes as a vector.
fn beacon_tag_bytes() -> (r: Vec<u8>)
    ensures
        r@ =~= beacon_tag(),
{
    let tag: [u8; 18] = [
        116, 104, 114, 101, 115, 104, 111, 108, 100,
        45, 114, 101, 99, 111, 118, 101, 114, 121,
    ];
    let mut v: Vec<u8> = Vec::new();
    let mut i: usize = 0;
    while i < 18
        invariant
            i <= 18,
            v@.len() == i,
            forall|j: int| 0 <= j < i ==> v@[j] == tag@[j],
        decreases 18 - i,
    {
        v.push(tag[i]);
        i = i + 1;
    }
    proof {
        assert(v@ =~= beacon_tag());
    }
    v
}

} // verus!
