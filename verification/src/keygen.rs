//! Account-key generation and the slot-indexed public-key store.
//!
//! Each generated key pair is derived from 32 random bytes through the
//! hardened account path `m/84'/coin'/0'`, where the coin segment is 0 on
//! mainnet and 1 on testnet and regtest. The public portion — extended
//! public key, fingerprint and network — is kept in a caller-chosen slot;
//! writing to an occupied slot is refused, never overwritten, and the
//! private key never enters the listing.

use vstd::prelude::*;
use crate::crypto::random_seed32;
use crate::errors::Error;
use crate::keymat::Network;

verus! {

/// A generated key pair as handed back to the caller. Only `xpriv` is
/// secret, and only this return value carries it.
#[derive(Debug)]
pub struct KeyPair {
    pub xpub: String,
    pub xpriv: Option<String>,
    pub fingerprint: String,
    pub network: Network,
}

/// One occupied slot of the store: the public record only.
#[derive(Debug)]
pub struct KeySlot {
    pub index: u32,
    pub xpub: String,
    pub fingerprint: String,
    pub network: Network,
}

/// Generates account keys and keeps their public records by slot index.
pub struct KeyGenerator {
    network: Network,
    slots: Vec<KeySlot>,
}

/// Whether BIP32 master-key derivation accepts a seed: it refuses only the
/// negligible seed set whose HMAC yields an out-of-range scalar, a fixed
/// function of the seed bytes alone.
pub uninterp spec fn master_seed_ok(seed: Seq<u8>) -> bool;

/// The textual extended public key of the node derived from a seed's master
/// key at the hardened path `purpose'/coin'/account'`; the flag tells the
/// mainnet encoding from the testnet one. A fixed function of these alone.
pub uninterp spec fn account_xpub_text_of(main: bool, seed: Seq<u8>, purpose: int, coin: int, account: int) -> Seq<char>;

/// The textual extended private key of the same node.
pub uninterp spec fn account_xpriv_text_of(main: bool, seed: Seq<u8>, purpose: int, coin: int, account: int) -> Seq<char>;

/// The fingerprint of the same node as hex text; the key material does not
/// depend on the network, so neither does the fingerprint.
pub uninterp spec fn account_fingerprint_of(seed: Seq<u8>, purpose: int, coin: int, account: int) -> Seq<char>;

/// Relies on bitcoin::bip32::Xpriv::new_master and derive_priv over three
/// hardened child numbers, then Xpub::from_priv, fingerprint and their
/// Display forms. From a depth-zero master the only error derive_priv can
/// return is the depth limit, unreachable at depth three, so the call
/// succeeds exactly when the master derivation accepts the seed; the
/// negligible out-of-range case inside child derivation panics in the
/// bitcoin crate itself rather than returning an error. The three texts are
/// fixed functions of network kind, seed and path; the fingerprint is four
/// bytes written as eight hex characters.
#[verifier::external_body]
pub(crate) fn derive_account_texts(
    network: Network,
    seed: &Vec<u8>,
    purpose: u32,
    coin: u32,
    account: u32,
) -> (r: Result<(String, String, String), Error>)
    requires
        seed@.len() == 32,
        purpose < 0x8000_0000,
        coin < 0x8000_0000,
        account < 0x8000_0000,
    ensures
        r is Ok <==> master_seed_ok(seed@),
        r matches Ok(t) ==> {
            &&& t.0@ == account_xpub_text_of(network == Network::Main, seed@, purpose as int,
                coin as int, account as int)
            &&& t.1@ == account_xpriv_text_of(network == Network::Main, seed@, purpose as int,
                coin as int, account as int)
            &&& t.2@ == account_fingerprint_of(seed@, purpose as int, coin as int, account as int)
            &&& t.0@.len() >= 1
            &&& t.1@.len() >= 1
            &&& t.2@.len() == 8
        },
        r matches Err(e) ==> e == Error::InvalidTweak,
{
    let main = matches!(network, Network::Main);
    let kind = if main { bitcoin::NetworkKind::Main } else { bitcoin::NetworkKind::Test };
    let master = bitcoin::bip32::Xpriv::new_master(kind, seed.as_slice())
        .map_err(|_| Error::InvalidTweak)?;
    let secp = bitcoin::secp256k1::Secp256k1::new();
    let path = [
        bitcoin::bip32::ChildNumber::from_hardened_idx(purpose).expect("below 2^31"),
        bitcoin::bip32::ChildNumber::from_hardened_idx(coin).expect("below 2^31"),
        bitcoin::bip32::ChildNumber::from_hardened_idx(account).expect("below 2^31"),
    ];
    let node = master.derive_priv(&secp, &path).expect("depth limit unreachable from a master");
    let xpub = bitcoin::bip32::Xpub::from_priv(&secp, &node);
    Ok((xpub.to_string(), node.to_string(), node.fingerprint(&secp).to_string()))
}

/// The coin-type path segment a network selects; Signet selects none and is
/// refused before derivation.
pub open spec fn coin_type_of(n: Network) -> int {
    if n == Network::Main {
        0
    } else {
        1
    }
}

impl KeyGenerator {
    pub closed spec fn network_view(&self) -> Network {
        self.network
    }

    pub closed spec fn slots_view(&self) -> Seq<KeySlot> {
        self.slots@
    }

    /// A slot index already holds a record.
    pub open spec fn occupied(&self, index: u32) -> bool {
        exists|j: int| 0 <= j < self.slots_view().len() && (#[trigger] self.slots_view()[j]).index
            == index
    }

    /// A fresh generator over an empty store.
    pub fn new(network: Network) -> (r: KeyGenerator)
        ensures
            r.network_view() == network,
            r.slots_view().len() == 0,
    {
        KeyGenerator { network, slots: Vec::new() }
    }

    /// Decides slot occupancy.
    pub fn is_occupied(&self, index: u32) -> (r: bool)
        ensures
            r == self.occupied(index),
    {
        let n: usize = self.slots.len();
        let mut i: usize = 0;
        while i < n
            invariant
                i <= n,
                n == self.slots@.len(),
                forall|j: int| 0 <= j < i ==> (#[trigger] self.slots@[j]).index != index,
            decreases n - i,
        {
            if self.slots[i].index == index {
                return true;
            }
            i = i + 1;
        }
        false
    }

    /// The coin-type segment of the account path, or the network's refusal.
    pub fn coin_type(&self) -> (r: Result<u32, Error>)
        ensures
            self.network_view() == Network::Main ==> r == Ok::<u32, Error>(0u32),
            self.network_view() == Network::Test || self.network_view() == Network::Regtest
                ==> r == Ok::<u32, Error>(1u32),
            self.network_view() == Network::Signet ==> r == Err::<u32, Error>(
                Error::UnsupportedNetwork,
            ),
    {
        match self.network {
            Network::Main => Ok(0u32),
            Network::Test => Ok(1u32),
            Network::Regtest => Ok(1u32),
            Network::Signet => Err(Error::UnsupportedNetwork),
        }
    }

    /// Generates a key pair from the given seed and stores its public
    /// record at `index`.
    ///
    /// Fails with `UnsupportedNetwork` exactly on a network without an
    /// account path, with `KeyIndexConflict` — naming the slot — exactly
    /// when the slot is occupied (the store is never overwritten), and
    /// otherwise succeeds exactly when derivation accepts the seed, which
    /// it refuses only in a negligible case, as `InvalidTweak`. On success
    /// the returned texts are the xpub, xpriv and fingerprint of the seed's
    /// master key derived at `m/84'/coin'/0'`, the new record is appended,
    /// every prior slot is untouched, and the private key goes only into
    /// the returned pair.
    pub fn generate_key_from_seed(&mut self, index: u32, seed: &Vec<u8>) -> (r: Result<
        KeyPair,
        Error,
    >)
        requires
            seed@.len() == 32,
        ensures
            (r matches Err(e) && e == Error::UnsupportedNetwork) <==> old(self).network_view()
                == Network::Signet,
            old(self).network_view() != Network::Signet ==> ((r matches Err(e) && e
                == Error::KeyIndexConflict(index)) <==> old(self).occupied(index)),
            old(self).network_view() != Network::Signet && !old(self).occupied(index) ==> (
            r is Ok <==> master_seed_ok(seed@)),
            r is Err ==> final(self).slots_view() == old(self).slots_view()
                && final(self).network_view() == old(self).network_view(),
            r matches Ok(kp) ==> {
                &&& final(self).slots_view().len() == old(self).slots_view().len() + 1
                &&& forall|j: int| 0 <= j < old(self).slots_view().len()
                    ==> final(self).slots_view()[j] == old(self).slots_view()[j]
                &&& final(self).slots_view().last().index == index
                &&& final(self).slots_view().last().xpub@ == kp.xpub@
                &&& final(self).slots_view().last().fingerprint@ == kp.fingerprint@
                &&& final(self).slots_view().last().network == old(self).network_view()
                &&& kp.network == old(self).network_view()
                &&& kp.xpub@ == account_xpub_text_of(old(self).network_view() == Network::Main,
                    seed@, 84, coin_type_of(old(self).network_view()), 0)
                &&& (kp.xpriv matches Some(xs) && xs@ == account_xpriv_text_of(
                    old(self).network_view() == Network::Main, seed@, 84,
                    coin_type_of(old(self).network_view()), 0))
                &&& kp.fingerprint@ == account_fingerprint_of(seed@, 84,
                    coin_type_of(old(self).network_view()), 0)
                &&& final(self).network_view() == old(self).network_view()
                &&& !old(self).occupied(index)
            },
            r matches Err(e) ==> (e == Error::UnsupportedNetwork || e == Error::KeyIndexConflict(
                index,
            ) || e == Error::InvalidTweak),
    {
        let coin = match self.coin_type() {
            Ok(c) => c,
            Err(e) => {
                return Err(e);
            },
        };
        if self.is_occupied(index) {
            return Err(Error::KeyIndexConflict(index));
        }
        let (xpub, xpriv, fingerprint) = match derive_account_texts(
            self.network,
            seed,
            84,
            coin,
            0,
        ) {
            Ok(texts) => texts,
            Err(e) => {
                return Err(e);
            },
        };
        let slot = KeySlot {
            index,
            xpub: xpub.clone(),
            fingerprint: fingerprint.clone(),
            network: self.network,
        };
        self.slots.push(slot);
        Ok(KeyPair { xpub, xpriv: Some(xpriv), fingerprint, network: self.network })
    }

    /// Generates a key pair from fresh randomness and stores its public
    /// record at `index`, as `generate_key_from_seed` does with the drawn
    /// seed.
    pub fn generate_key(&mut self, index: u32) -> (r: Result<KeyPair, Error>)
        ensures
            (r matches Err(e) && e == Error::UnsupportedNetwork) <==> old(self).network_view()
                == Network::Signet,
            old(self).network_view() != Network::Signet ==> ((r matches Err(e) && e
                == Error::KeyIndexConflict(index)) <==> old(self).occupied(index)),
            r is Err ==> final(self).slots_view() == old(self).slots_view()
                && final(self).network_view() == old(self).network_view(),
            r matches Ok(kp) ==> {
                &&& final(self).slots_view().len() == old(self).slots_view().len() + 1
                &&& forall|j: int| 0 <= j < old(self).slots_view().len()
                    ==> final(self).slots_view()[j] == old(self).slots_view()[j]
                &&& final(self).slots_view().last().index == index
                &&& final(self).slots_view().last().xpub@ == kp.xpub@
                &&& final(self).slots_view().last().fingerprint@ == kp.fingerprint@
                &&& final(self).slots_view().last().network == old(self).network_view()
                &&& kp.network == old(self).network_view()
                &&& kp.xpriv is Some
                &&& final(self).network_view() == old(self).network_view()
                &&& !old(self).occupied(index)
            },
            r matches Err(e) ==> (e == Error::UnsupportedNetwork || e == Error::KeyIndexConflict(
                index,
            ) || e == Error::InvalidTweak),
    {
        let seed = random_seed32();
        self.generate_key_from_seed(index, &seed)
    }

    /// Lists the public records: one per slot, in insertion order, and the
    /// private key never among them.
    pub fn list_keys(&self) -> (r: Vec<KeyPair>)
        ensures
            r@.len() == self.slots_view().len(),
            forall|j: int| 0 <= j < r@.len() ==> (#[trigger] r@[j]).xpriv is None,
            forall|j: int| 0 <= j < r@.len() ==> (#[trigger] r@[j]).xpub@
                == self.slots_view()[j].xpub@,
            forall|j: int| 0 <= j < r@.len() ==> (#[trigger] r@[j]).fingerprint@
                == self.slots_view()[j].fingerprint@,
            forall|j: int| 0 <= j < r@.len() ==> (#[trigger] r@[j]).network
                == self.slots_view()[j].network,
    {
        let n: usize = self.slots.len();
        let mut r: Vec<KeyPair> = Vec::new();
        let mut i: usize = 0;
        while i < n
            invariant
                i <= n,
                n == self.slots@.len(),
                r@.len() == i,
                forall|j: int| 0 <= j < i ==> (#[trigger] r@[j]).xpriv is None,
                forall|j: int| 0 <= j < i ==> (#[trigger] r@[j]).xpub@ == self.slots@[j].xpub@,
                forall|j: int| 0 <= j < i ==> (#[trigger] r@[j]).fingerprint@
                    == self.slots@[j].fingerprint@,
                forall|j: int| 0 <= j < i ==> (#[trigger] r@[j]).network == self.slots@[j].network,
            decreases n - i,
        {
            let slot = &self.slots[i];
            r.push(
                KeyPair {
                    xpub: slot.xpub.clone(),
                    xpriv: None,
                    fingerprint: slot.fingerprint.clone(),
                    network: slot.network,
                },
            );
            i = i + 1;
        }
        r
    }
}

} // verus!
