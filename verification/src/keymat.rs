//! Value types for compressed curve points and network tags.

use vstd::prelude::*;
use crate::errors::Error;

verus! {

/// The Bitcoin network a key or address belongs to. It selects address
/// prefixes and derivation paths only; it never affects key arithmetic.
#[derive(Clone, Copy, Debug, PartialEq, Eq, Structural)]
pub enum Network {
    Main,
    Test,
    Signet,
    Regtest,
}

/// The bech32 human-readable prefix of `n`, as ASCII bytes.
pub open spec fn hrp_bytes(n: Network) -> Seq<u8> {
    match n {
        Network::Main => seq![98u8, 99u8],
        Network::Test => seq![116u8, 98u8],
        Network::Signet => seq![116u8, 98u8],
        Network::Regtest => seq![98u8, 99u8, 114u8, 116u8],
    }
}

/// A compressed secp256k1 public key: 33 bytes, the first one 0x02 or 0x03.
///
/// The shape invariant is checked at construction; whether the bytes name a
/// real curve point is decided by the curve library when the point is used.
#[derive(Debug)]
pub struct CurvePoint {
    bytes: Vec<u8>,
}

/// The shape every `CurvePoint` is constructed with.
pub open spec fn point_wf(s: Seq<u8>) -> bool {
    s.len() == 33 && (s[0] == 0x02 || s[0] == 0x03)
}

impl View for CurvePoint {
    type V = Seq<u8>;

    closed spec fn view(&self) -> Seq<u8> {
        self.bytes@
    }
}

impl CurvePoint {
    /// Accepts exactly the well-shaped compressed encodings.
    pub fn from_bytes(bytes: Vec<u8>) -> (r: Result<CurvePoint, Error>)
        ensures
            r matches Ok(p) ==> p@ == bytes@ && point_wf(bytes@),
            r is Err <==> !point_wf(bytes@),
            r matches Err(e) ==> e == Error::InvalidPoint,
    {
        if bytes.len() == 33 && (bytes[0] == 0x02 || bytes[0] == 0x03) {
            Ok(CurvePoint { bytes })
        } else {
            Err(Error::InvalidPoint)
        }
    }

    /// Wraps bytes already known to be well shaped.
    pub(crate) fn from_wf_bytes(bytes: Vec<u8>) -> (r: CurvePoint)
        requires
            point_wf(bytes@),
        ensures
            r@ == bytes@,
    {
        CurvePoint { bytes }
    }

    /// The compressed 33-byte serialization.
    pub fn as_bytes(&self) -> (r: &Vec<u8>)
        ensures
            r@ == self@,
    {
        &self.bytes
    }

    pub open spec fn wf(&self) -> bool {
        point_wf(self@)
    }
}

} // verus!
