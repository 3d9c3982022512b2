//! The error taxonomy shared by all derivation and encoding functions.

use vstd::prelude::*;

verus! {

/// Why a derivation, policy construction, or storage operation failed.
#[derive(Clone, Copy, Debug, PartialEq, Eq, Structural)]
pub enum Error {
    /// A curve point was malformed, not on the curve, or the identity element.
    InvalidPoint,
    /// A derived tweak scalar fell outside `[1, n-1]` for the curve order `n`.
    InvalidTweak,
    /// A policy was requested with a threshold larger than the key count,
    /// or with no required signer at all.
    ThresholdExceedsKeyCount,
    /// An extended public key could not be parsed.
    InvalidKeyEncoding,
    /// The network tag has no defined behaviour for the requested operation.
    UnsupportedNetwork,
    /// A key slot was already occupied (carries the conflicting slot index).
    KeyIndexConflict(u32),
    /// The backing store failed.
    StorageIOError,
}

} // verus!
