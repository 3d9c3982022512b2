//! The multisig wallet policy: construction, parsing, and addressing.
//!
//! A wallet is an ordered key list, a threshold, a network tag and the
//! canonical policy string with its checksum. The string is the unit of
//! wallet identity: any change of key, order or threshold changes it.

use vstd::prelude::*;
use crate::address::encode_script_address;
use crate::bytes::{subvec, bytes_equal};
use crate::crypto::sha256_of;
use crate::dec::{dec_rep, dec_val, digits_len, is_digit, render_small, pow10,
    lemma_digits_len_char, lemma_dec_val_lower, lemma_pow10_pos};
use crate::errors::Error;
use crate::keymat::{Network, hrp_bytes};
use crate::policy::{policy_params_wf, policy_body, policy_string, policy_header, expr_of,
    expr_suffix, join_commas, split_commas, wf_expr, strip_expr, key_wf, is_base58, checksum_of,
    checksum8, xpub_norm, normalize_xpub, child_key_of, derive_child_key, parse_policy_spec,
    parse_body, parse_inner, lemma_upto_comma_char,
    lemma_join_split, lemma_body_printable, lemma_wf_expr_printable, lemma_header_printable};
use crate::script::{multisig_script, multisig_script_spec};

verus! {

/// An immutable M-of-N spending policy.
#[derive(Debug)]
pub struct MultisigWallet {
    xpubs: Vec<Vec<u8>>,
    threshold: usize,
    network: Network,
    descriptor: Vec<u8>,
}

impl MultisigWallet {
    /// The normalized key texts, in the order given at construction.
    pub closed spec fn keys_view(&self) -> Seq<Seq<u8>> {
        self.xpubs@.map_values(|k: Vec<u8>| k@)
    }

    pub closed spec fn threshold_view(&self) -> nat {
        self.threshold as nat
    }

    pub closed spec fn network_view(&self) -> Network {
        self.network
    }

    pub closed spec fn descriptor_view(&self) -> Seq<u8> {
        self.descriptor@
    }

    /// Every constructed wallet carries well-formed parameters and the
    /// canonical string over exactly its keys and threshold.
    pub open spec fn wf(&self) -> bool {
        &&& policy_params_wf(self.threshold_view(), self.keys_view())
        &&& self.descriptor_view() == policy_string(self.threshold_view(), self.keys_view())
        &&& checksum_of(policy_body(self.threshold_view(), self.keys_view())).len() == 8
        &&& self.threshold_view() <= 20
    }

    /// The canonical policy string, checksum included.
    pub fn descriptor(&self) -> (r: &Vec<u8>)
        ensures
            r@ == self.descriptor_view(),
    {
        &self.descriptor
    }

    pub fn network(&self) -> (r: Network)
        ensures
            r == self.network_view(),
    {
        self.network
    }

    pub fn threshold(&self) -> (r: usize)
        ensures
            r as nat == self.threshold_view(),
    {
        self.threshold
    }

    /// The normalized keys.
    pub fn xpubs(&self) -> (r: &Vec<Vec<u8>>)
        ensures
            r@.map_values(|k: Vec<u8>| k@) == self.keys_view(),
    {
        &self.xpubs
    }

    /// Builds the policy for the given extended public keys (as text), in
    /// the order given, with the given threshold.
    ///
    /// Succeeds exactly when the threshold lies between one and the key
    /// count, at most twenty keys are given, and every key parses. The key
    /// order is kept: a different order is a different wallet.
    pub fn new(xpubs: Vec<Vec<u8>>, threshold: usize, network: Network) -> (r: Result<
        MultisigWallet,
        Error,
    >)
        ensures
            r is Ok <==> (1 <= threshold && threshold <= xpubs@.len() && xpubs@.len() <= 20
                && forall|i: int| 0 <= i < xpubs@.len() ==> xpub_norm(xpubs@[i]@) is Some),
            r matches Ok(w) ==> {
                &&& w.wf()
                &&& w.network_view() == network
                &&& w.threshold_view() == threshold as nat
                &&& w.keys_view().len() == xpubs@.len()
                &&& forall|i: int| 0 <= i < xpubs@.len()
                    ==> Some(#[trigger] w.keys_view()[i]) == xpub_norm(xpubs@[i]@)
                &&& forall|i: int| 0 <= i < xpubs@.len()
                    ==> #[trigger] w.keys_view()[i] == xpubs@[i]@
                &&& w.descriptor_view() == policy_string(threshold as nat, w.keys_view())
            },
            r matches Err(e) ==> if threshold > xpubs@.len() || threshold == 0 || xpubs@.len()
                > 20 {
                e == Error::ThresholdExceedsKeyCount
            } else {
                e == Error::InvalidKeyEncoding
            },
    {
        let n: usize = xpubs.len();
        if threshold > n || threshold == 0 || n > 20 {
            return Err(Error::ThresholdExceedsKeyCount);
        }
        let mut norm: Vec<Vec<u8>> = Vec::new();
        let mut i: usize = 0;
        while i < n
            invariant
                i <= n,
                n == xpubs@.len(),
                1 <= threshold <= n <= 20,
                norm@.len() == i,
                forall|j: int| 0 <= j < i
                    ==> Some(#[trigger] norm@[j]@) == xpub_norm(xpubs@[j]@),
                forall|j: int| 0 <= j < i ==> #[trigger] norm@[j]@ == xpubs@[j]@,
                forall|j: int| 0 <= j < i ==> key_wf(#[trigger] norm@[j]@),
            decreases n - i,
        {
            match normalize_xpub(&xpubs[i]) {
                Ok(v) => {
                    norm.push(v);
                },
                Err(e) => {
                    proof {
                        assert(xpub_norm(xpubs@[i as int]@) is None);
                        assert(e == Error::InvalidKeyEncoding);
                        assert(!(threshold > xpubs@.len() || threshold == 0 || xpubs@.len() > 20));
                    }
                    return Err(e);
                },
            }
            i = i + 1;
        }
        let ghost keys = norm@.map_values(|k: Vec<u8>| k@);
        proof {
            assert(forall|j: int| 0 <= j < keys.len() ==> key_wf(#[trigger] keys[j]));
            assert(policy_params_wf(threshold as nat, keys));
            assert forall|j: int| 0 <= j < xpubs@.len() implies xpub_norm(xpubs@[j]@) is Some by {
                assert(Some(norm@[j]@) == xpub_norm(xpubs@[j]@));
            }
            assert forall|j: int| 0 <= j < xpubs@.len() implies Some(#[trigger] keys[j])
                == xpub_norm(xpubs@[j]@) by {
                assert(keys[j] == norm@[j]@);
            }
        }
        let body = build_body(&norm, threshold);
        proof {
            lemma_body_printable(threshold as nat, keys);
        }
        let cs = checksum8(&body);
        let mut descriptor = body;
        descriptor.push(35u8);
        descriptor.extend_from_slice(cs.as_slice());
        proof {
            assert(descriptor@ =~= policy_string(threshold as nat, keys));
        }
        Ok(MultisigWallet { xpubs: norm, threshold, network, descriptor })
    }
}

/// Builds the part of the policy string before the checksum.
fn build_body(keys: &Vec<Vec<u8>>, m: usize) -> (r: Vec<u8>)
    requires
        policy_params_wf(m as nat, keys@.map_values(|k: Vec<u8>| k@)),
    ensures
        r@ == policy_body(m as nat, keys@.map_values(|k: Vec<u8>| k@)),
{
    let ghost key_seqs = keys@.map_values(|k: Vec<u8>| k@);
    let ghost exprs = key_seqs.map_values(|k: Seq<u8>| expr_of(k));
    let mut v: Vec<u8> = header_bytes();
    let digits = render_small(m);
    v.extend_from_slice(digits.as_slice());
    v.push(44u8);
    proof {
        assert(v@ =~= policy_header() + dec_rep(m as nat) + seq![44u8] + join_commas(
            exprs.take(0),
        ));
    }
    let n: usize = keys.len();
    let mut i: usize = 0;
    while i < n
        invariant
            i <= n,
            n == keys@.len(),
            key_seqs == keys@.map_values(|k: Vec<u8>| k@),
            exprs == key_seqs.map_values(|k: Seq<u8>| expr_of(k)),
            v@ == policy_header() + dec_rep(m as nat) + seq![44u8] + join_commas(
                exprs.take(i as int),
            ),
        decreases n - i,
    {
        if i > 0 {
            v.push(44u8);
        }
        let key = &keys[i];
        v.extend_from_slice(key.as_slice());
        v.push(47u8);
        v.push(48u8);
        v.push(47u8);
        v.push(42u8);
        i = i + 1;
        proof {
            lemma_join_snoc(exprs, i as int);
            assert(exprs[i - 1] == expr_of(key_seqs[i - 1]));
            assert(v@ =~= policy_header() + dec_rep(m as nat) + seq![44u8] + join_commas(
                exprs.take(i as int),
            ));
        }
    }
    v.push(41u8);
    v.push(41u8);
    proof {
        assert(exprs.take(n as int) =~= exprs);
        assert(v@ =~= policy_body(m as nat, key_seqs));
    }
    v
}

/// Prefixes grow one joined piece at a time.
proof fn lemma_join_snoc(es: Seq<Seq<u8>>, i: int)
    requires
        0 < i <= es.len(),
    ensures
        join_commas(es.take(i)) == if i == 1 {
            es[0]
        } else {
            join_commas(es.take(i - 1)) + seq![44u8] + es[i - 1]
        },
    decreases i,
{
    if i == 1 {
        assert(es.take(1) =~= seq![es[0]]);
    } else if i == 2 {
        assert(es.take(2).len() == 2);
        assert(es.take(2)[0] == es[0]);
        assert(es.take(2).drop_first() =~= seq![es[1]]);
        assert(es.take(1) =~= seq![es[0]]);
        let t2 = es.take(2);
        assert(t2.len() == 2);
        assert(join_commas(t2) == t2[0] + seq![44u8] + join_commas(t2.drop_first()));
        assert(t2.drop_first() == seq![es[1]]) by {
            assert(t2.drop_first() =~= seq![es[1]]);
        }
        assert(join_commas(seq![es[1]]) == es[1]);
        assert(join_commas(es.take(2)) =~= join_commas(es.take(1)) + seq![44u8] + es[1]);
    } else {
        lemma_join_snoc(es.drop_first(), i - 1);
        assert(es.take(i).drop_first() =~= es.drop_first().take(i - 1));
        assert(es.take(i - 1).drop_first() =~= es.drop_first().take(i - 2));
        assert(es.take(i).len() == i);
        assert(es.take(i)[0] == es[0]);
        assert(es.take(i - 1)[0] == es[0]);
        assert(es.drop_first()[i - 2] == es[i - 1]);
        assert(join_commas(es.take(i)) =~= join_commas(es.take(i - 1)) + seq![44u8] + es[i - 1]);
    }
}

/// The compressed child keys at `0/0` under each key text, where derivation
/// succeeds.
pub open spec fn children_of(keys: Seq<Seq<u8>>) -> Seq<Seq<u8>> {
    keys.map_values(|k: Seq<u8>| child_key_of(k, 0, 0)->Some_0)
}

impl MultisigWallet {
    /// Derives the wallet's first receive address: the P2WSH address of the
    /// multisig script over each key's child at the non-hardened path `0/0`.
    ///
    /// Succeeds exactly when every stored key derives a child; the address
    /// is then a fixed function of the policy and the network.
    pub fn get_new_address(&self) -> (r: Result<Vec<u8>, Error>)
        requires
            self.wf(),
        ensures
            r is Ok <==> (forall|i: int| 0 <= i < self.keys_view().len()
                ==> child_key_of(#[trigger] self.keys_view()[i], 0, 0) is Some),
            r matches Ok(v) ==> v@ == crate::address::segwit_v0_of(
                hrp_bytes(self.network_view()),
                sha256_of(
                    multisig_script_spec(self.threshold_view(), children_of(self.keys_view())),
                ),
            ),
            r matches Ok(v) ==> v@.len() == hrp_bytes(self.network_view()).len() + 60,
            r matches Ok(v) ==> (forall|i: int| 0 <= i < hrp_bytes(self.network_view()).len()
                ==> v@[i] == hrp_bytes(self.network_view())[i]),
            r matches Ok(v) ==> v@[hrp_bytes(self.network_view()).len() as int] == 49u8,
            r matches Ok(v) ==> v@[hrp_bytes(self.network_view()).len() as int + 1] == 113u8,
            r matches Err(e) ==> e == Error::InvalidKeyEncoding,
    {
        let ghost kv = self.keys_view();
        let n: usize = self.xpubs.len();
        let mut children: Vec<Vec<u8>> = Vec::new();
        let mut i: usize = 0;
        while i < n
            invariant
                i <= n,
                n == self.xpubs@.len(),
                kv == self.keys_view(),
                kv.len() == n,
                self.wf(),
                children@.len() == i,
                forall|j: int| 0 <= j < i
                    ==> child_key_of(kv[j], 0, 0) == Some(#[trigger] children@[j]@),
                forall|j: int| 0 <= j < i ==> (#[trigger] children@[j]@).len() == 33,
            decreases n - i,
        {
            match derive_child_key(&self.xpubs[i], 0, 0) {
                Ok(v) => {
                    children.push(v);
                },
                Err(e) => {
                    proof {
                        assert(child_key_of(kv[i as int], 0, 0) is None);
                    }
                    return Err(e);
                },
            }
            i = i + 1;
        }
        proof {
            assert forall|j: int| 0 <= j < kv.len()
                implies child_key_of(#[trigger] kv[j], 0, 0) is Some by {
                assert(child_key_of(kv[j], 0, 0) == Some(children@[j]@));
            }
            assert(children@.map_values(|c: Vec<u8>| c@) =~= children_of(kv));
        }
        let script = multisig_script(&children, self.threshold);
        Ok(encode_script_address(&script, self.network))
    }

    /// Re-parses this wallet's own policy string, validating its checksum.
    ///
    /// By the round-trip law this always succeeds and returns exactly the
    /// stored threshold and keys.
    pub fn reparse(&self) -> (r: Option<(usize, Vec<Vec<u8>>)>)
        requires
            self.wf(),
        ensures
            r matches Some((m, ks)) && m as nat == self.threshold_view() && ks@.map_values(
                |k: Vec<u8>| k@,
            ) == self.keys_view(),
    {
        let r = parse_policy(&self.descriptor);
        proof {
            crate::policy::lemma_policy_round_trip(self.threshold_view(), self.keys_view());
        }
        r
    }
}

/// Parses a policy string back into its threshold and keys, validating its
/// shape and its checksum: the exact inverse of what `MultisigWallet::new`
/// writes, and `None` on every other byte string.
pub fn parse_policy(d: &Vec<u8>) -> (r: Option<(usize, Vec<Vec<u8>>)>)
    ensures
        r is None ==> parse_policy_spec(d@) is None,
        r matches Some((m, ks)) ==> parse_policy_spec(d@) == Some(
            (m as nat, ks@.map_values(|k: Vec<u8>| k@)),
        ),
{
    let len: usize = d.len();
    if len < 9 {
        return None;
    }
    if d[len - 9] != 35 {
        return None;
    }
    let body = subvec(d, 0, len - 9);
    let b: usize = body.len();
    if b < 12 {
        return None;
    }
    if !check_header(&body) {
        return None;
    }
    if body[b - 2] != 41 || body[b - 1] != 41 {
        proof {
            if body@.skip(b - 2) == seq![41u8, 41u8] {
                assert(body@.skip(b - 2)[0] == body@[b - 2]);
                assert(body@.skip(b - 2)[1] == body@[b - 1]);
            }
        }
        return None;
    }
    proof {
        assert(body@.skip(b - 2) =~= seq![41u8, 41u8]);
    }
    let inner = subvec(&body, 10, b - 2);
    let il: usize = inner.len();

    // Scan the threshold digits.
    let mut dl: usize = 0;
    while dl < il && 48 <= inner[dl] && inner[dl] <= 57
        invariant
            dl <= il,
            il == inner@.len(),
            forall|j: int| 0 <= j < dl ==> is_digit(#[trigger] inner@[j]),
        decreases il - dl,
    {
        dl = dl + 1;
    }
    proof {
        lemma_digits_len_char(inner@, dl as int);
        assert(digits_len(inner@) == dl);
    }
    if dl == 0 {
        return None;
    }
    if dl >= 2 && inner[0] == 48 {
        return None;
    }
    if dl >= il {
        return None;
    }
    if inner[dl] != 44 {
        return None;
    }
    if dl > 2 {
        proof {
            let t = inner@.take(dl as int);
            assert(forall|j: int| 0 <= j < t.len() ==> is_digit(#[trigger] t[j]));
            assert(t[0] == inner@[0]);
            lemma_dec_val_lower(t);
            lemma_pow10_pos((dl - 3) as nat);
            assert(pow10((dl - 1) as nat) == 10 * pow10((dl - 2) as nat));
            assert(pow10((dl - 2) as nat) == 10 * pow10((dl - 3) as nat));
            assert(dec_val(t) > 20);
        }
        return None;
    }
    let m: usize = if dl == 1 {
        (inner[0] - 48) as usize
    } else {
        (10 * ((inner[0] - 48) as usize)) + ((inner[1] - 48) as usize)
    };
    proof {
        let t = inner@.take(dl as int);
        assert(is_digit(inner@[0]));
        if dl == 1 {
            assert(t =~= seq![inner@[0]]);
            crate::dec::lemma_dec_val_one(inner@[0]);
            assert(dec_val(t) == m);
        } else {
            assert(is_digit(inner@[1]));
            assert(t =~= seq![inner@[0], inner@[1]]);
            crate::dec::lemma_dec_val_two(inner@[0], inner@[1]);
            assert(dec_val(t) == (inner@[0] - 48) * 10 + (inner@[1] - 48));
            assert((inner@[0] - 48) * 10 == 10 * (inner@[0] - 48));
            assert(m == 10 * (inner@[0] - 48) + (inner@[1] - 48));
            assert(dec_val(t) == m);
        }
    }

    // Split and validate the key expressions.
    let segs = split_segments(&inner, dl + 1);
    let ghost exprs = split_commas(inner@.skip(dl as int + 1));
    let keys = match validate_exprs(&segs) {
        Some(keys) => keys,
        None => {
            proof {
                let j = choose|j: int| 0 <= j < segs@.len() && !wf_expr(#[trigger] segs@[j]@);
                assert(exprs[j] == segs@[j]@);
                assert(!wf_expr(exprs[j]));
            }
            return None;
        },
    };
    let ghost key_seqs = exprs.map_values(|e: Seq<u8>| strip_expr(e));
    proof {
        assert forall|j: int| 0 <= j < exprs.len() implies wf_expr(#[trigger] exprs[j]) by {
            assert(exprs[j] == segs@[j]@);
        }
        assert(keys@.map_values(|k: Vec<u8>| k@) =~= key_seqs);
    }
    if m < 1 || keys.len() < m || keys.len() > 20 {
        proof {
            assert(keys@.len() == key_seqs.len());
            assert(!policy_params_wf(dec_val(inner@.take(dl as int)), key_seqs));
            assert(forall|j: int| 0 <= j < exprs.len() ==> wf_expr(#[trigger] exprs[j]));
            assert(parse_inner(inner@) is None);
            assert(body@ =~= d@.take(d@.len() - 9));
            assert(parse_body(body@) is None);
            assert(parse_policy_spec(d@) is None);
        }
        return None;
    }
    proof {
        assert forall|j: int| 0 <= j < key_seqs.len() implies key_wf(#[trigger] key_seqs[j]) by {
            assert(key_seqs[j] == strip_expr(exprs[j]));
            assert(wf_expr(exprs[j]));
        }
        assert(policy_params_wf(m as nat, key_seqs));
    }

    // The body is printable, so the checksum can be recomputed and compared.
    proof {
        lemma_printable_from_parts(body@, inner@, dl as int, exprs);
    }
    let cs_expected = checksum8(&body);
    let cs_given = subvec(d, len - 8, len);
    proof {
        assert(cs_given@ =~= d@.skip(len - 8));
    }
    if !bytes_equal(&cs_expected, &cs_given) {
        return None;
    }
    proof {
        assert(checksum_of(body@) == d@.skip(len - 8));
        assert(parse_inner(inner@) == Some((m as nat, key_seqs)));
        assert(parse_body(body@) == Some((m as nat, key_seqs)));
        assert(parse_policy_spec(d@) == Some((m as nat, key_seqs)));
    }
    Some((m, keys))
}

/// Printability of a parsed body, assembled from its checked parts.
proof fn lemma_printable_from_parts(body: Seq<u8>, inner: Seq<u8>, dl: int, exprs: Seq<Seq<u8>>)
    requires
        body.len() >= 12,
        body.take(10) == policy_header(),
        body[body.len() - 2] == 41,
        body[body.len() - 1] == 41,
        inner == body.subrange(10, body.len() - 2),
        0 < dl < inner.len(),
        forall|j: int| 0 <= j < dl ==> is_digit(#[trigger] inner[j]),
        inner[dl] == 44,
        exprs == split_commas(inner.skip(dl + 1)),
        forall|j: int| 0 <= j < exprs.len() ==> wf_expr(#[trigger] exprs[j]),
    ensures
        forall|i: int| 0 <= i < body.len() ==> 32 <= #[trigger] body[i] <= 126,
{
    let rest = inner.skip(dl + 1);
    lemma_join_split(rest);
    assert forall|a: int, b: int| 0 <= a < exprs.len() && 0 <= b < exprs[a].len()
        implies 32 <= #[trigger] exprs[a][b] <= 126 by {
        lemma_wf_expr_printable(exprs[a]);
    }
    crate::policy::lemma_join_printable(exprs);
    assert(forall|j: int| 0 <= j < rest.len() ==> 32 <= #[trigger] rest[j] <= 126) by {
        assert(join_commas(exprs) == rest);
    }
    lemma_header_printable();
    assert forall|i: int| 0 <= i < body.len() implies 32 <= #[trigger] body[i] <= 126 by {
        if i < 10 {
            assert(body[i] == body.take(10)[i]);
            assert(policy_header()[i] == body[i]);
        } else if i < body.len() - 2 {
            let j = i - 10;
            assert(body[i] == inner[j]);
            if j < dl {
                assert(is_digit(inner[j]));
            } else if j == dl {
            } else {
                assert(inner[j] == rest[j - dl - 1]);
            }
        } else {
        }
    }
}

/// Checks every segment is a well-formed key expression and strips each to
/// its key.
fn validate_exprs(segs: &Vec<Vec<u8>>) -> (r: Option<Vec<Vec<u8>>>)
    ensures
        r is Some <==> (forall|j: int| 0 <= j < segs@.len() ==> wf_expr(#[trigger] segs@[j]@)),
        r matches Some(ks) ==> ks@.len() == segs@.len() && forall|j: int| 0 <= j < segs@.len()
            ==> #[trigger] ks@[j]@ == strip_expr(segs@[j]@),
{
    let sn: usize = segs.len();
    let mut keys: Vec<Vec<u8>> = Vec::new();
    let mut i: usize = 0;
    while i < sn
        invariant
            i <= sn,
            sn == segs@.len(),
            keys@.len() == i,
            forall|j: int| 0 <= j < i ==> wf_expr(#[trigger] segs@[j]@),
            forall|j: int| 0 <= j < i ==> #[trigger] keys@[j]@ == strip_expr(segs@[j]@),
        decreases sn - i,
    {
        if !check_expr(&segs[i]) {
            proof {
                assert(!wf_expr(segs@[i as int]@));
            }
            return None;
        }
        let seg = &segs[i];
        keys.push(subvec(seg, 0, seg.len() - 4));
        i = i + 1;
        proof {
            assert(keys@[i - 1]@ =~= strip_expr(segs@[i - 1]@));
        }
    }
    Some(keys)
}

/// Compares the first ten bytes with the header.
fn check_header(body: &Vec<u8>) -> (r: bool)
    requires
        body@.len() >= 10,
    ensures
        r == (body@.take(10) == policy_header()),
{
    let hdr = header_bytes();
    let prefix = subvec(body, 0, 10);
    let r = bytes_equal(&prefix, &hdr);
    proof {
        assert(prefix@ =~= body@.take(10));
        if prefix@ =~= hdr@ {
            assert(body@.take(10) =~= policy_header());
        } else {
            if body@.take(10) == policy_header() {
                assert(prefix@ =~= hdr@);
            }
        }
    }
    r
}

/// Decides whether a segment is a well-formed key expression.
fn check_expr(e: &Vec<u8>) -> (r: bool)
    ensures
        r == wf_expr(e@),
{
    let n: usize = e.len();
    if n < 5 {
        return false;
    }
    if e[n - 4] != 47 || e[n - 3] != 48 || e[n - 2] != 47 || e[n - 1] != 42 {
        proof {
            if e@.skip(n - 4) == expr_suffix() {
                assert(e@.skip(n - 4)[0] == e@[n - 4]);
                assert(e@.skip(n - 4)[1] == e@[n - 3]);
                assert(e@.skip(n - 4)[2] == e@[n - 2]);
                assert(e@.skip(n - 4)[3] == e@[n - 1]);
            }
        }
        return false;
    }
    proof {
        assert(e@.skip(n - 4) =~= expr_suffix());
    }
    let mut i: usize = 0;
    while i < n - 4
        invariant
            5 <= n,
            n == e@.len(),
            i <= n - 4,
            forall|j: int| 0 <= j < i ==> is_base58(#[trigger] e@[j]),
        decreases n - 4 - i,
    {
        let b = e[i];
        let ok = (49 <= b && b <= 57) || (65 <= b && b <= 90 && b != 73 && b != 79) || (97 <= b
            && b <= 122 && b != 108);
        if !ok {
            proof {
                assert(e@.take(n - 4)[i as int] == e@[i as int]);
                assert(!is_base58(e@[i as int]));
            }
            return false;
        }
        i = i + 1;
    }
    proof {
        assert forall|j: int| 0 <= j < n - 4 implies is_base58(#[trigger] e@.take(n - 4)[j]) by {
            assert(e@.take(n - 4)[j] == e@[j]);
        }
        assert(key_wf(e@.take(n - 4)));
    }
    true
}

/// Splits the tail of `inner` from `from` on commas, yielding the segments.
fn split_segments(inner: &Vec<u8>, from: usize) -> (r: Vec<Vec<u8>>)
    requires
        from <= inner@.len(),
    ensures
        r@.map_values(|v: Vec<u8>| v@) == split_commas(inner@.skip(from as int)),
    decreases inner@.len() - from,
{
    let len: usize = inner.len();
    let mut j: usize = from;
    while j < len && inner[j] != 44
        invariant
            from <= j <= len,
            len == inner@.len(),
            forall|k: int| from <= k < j ==> inner@[k] != 44,
        decreases len - j,
    {
        j = j + 1;
    }
    let ghost rem = inner@.skip(from as int);
    proof {
        assert forall|k: int| 0 <= k < j - from implies rem[k] != 44 by {
            assert(rem[k] == inner@[from + k]);
        }
        if (j as int) - (from as int) < rem.len() {
            assert(rem[j - from] == inner@[j as int]);
        }
        lemma_upto_comma_char(rem, j as int - from as int);
    }
    let seg = subvec(inner, from, j);
    proof {
        assert(seg@ =~= rem.take(j as int - from as int));
    }
    if j >= len {
        let mut r: Vec<Vec<u8>> = Vec::new();
        r.push(seg);
        proof {
            assert(rem.take(j as int - from as int) =~= rem);
            assert(split_commas(rem) =~= seq![rem]);
            assert(r@.map_values(|v: Vec<u8>| v@) =~= seq![rem]);
        }
        r
    } else {
        let mut r = split_segments(inner, j + 1);
        r.insert(0, seg);
        proof {
            assert(inner@.skip(j as int + 1) =~= rem.skip(j as int - from as int + 1));
            assert(split_commas(rem) =~= seq![rem.take(j as int - from as int)] + split_commas(
                rem.skip(j as int - from as int + 1),
            ));
            assert(r@.map_values(|v: Vec<u8>| v@) =~= split_commas(rem));
        }
        r
    }
}

/// The header bytes as a vector.
fn header_bytes() -> (r: Vec<u8>)
    ensures
        r@ =~= policy_header(),
{
    let header: [u8; 10] = [119, 115, 104, 40, 109, 117, 108, 116, 105, 40];
    let mut v: Vec<u8> = Vec::new();
    let mut i: usize = 0;
    while i < 10
        invariant
            i <= 10,
            v@.len() == i,
            forall|j: int| 0 <= j < i ==> v@[j] == header@[j],
        decreases 10 - i,
    {
        v.push(header[i]);
        i = i + 1;
    }
    proof {
        assert(v@ =~= policy_header());
    }
    v
}

} // verus!
