//! The canonical multisig policy string and its grammar.
//!
//! A policy over keys `k_1 .. k_N` with threshold `M` is written
//! `wsh(multi(M,k_1/0/*,..,k_N/0/*))#cccccccc`: the keys in the caller's
//! order (never re-sorted — key order is part of wallet identity), the
//! threshold in decimal, and an eight-character integrity checksum over the
//! part before `#`. This module gives the string's exact spec, a parser
//! specification, and the proofs that building and parsing invert each other
//! and that key order changes the string.

use vstd::prelude::*;
use crate::dec::{is_digit, dec_rep, dec_val, digits_len, lemma_dec_rep_shape, lemma_dec_rep_val};
use crate::errors::Error;

verus! {

/// A character of the base58 alphabet: digits and letters without 0, O, I, l.
pub open spec fn is_base58(b: u8) -> bool {
    ||| 49 <= b <= 57
    ||| (65 <= b <= 90 && b != 73 && b != 79)
    ||| (97 <= b <= 122 && b != 108)
}

/// A well-formed key entry: nonempty base58 text.
pub open spec fn key_wf(k: Seq<u8>) -> bool {
    k.len() >= 1 && forall|i: int| 0 <= i < k.len() ==> is_base58(#[trigger] k[i])
}

/// What a policy can be built from: a threshold between one and the key
/// count, at most twenty keys (the script limit), all well formed.
pub open spec fn policy_params_wf(m: nat, keys: Seq<Seq<u8>>) -> bool {
    &&& 1 <= m
    &&& m <= keys.len()
    &&& keys.len() <= 20
    &&& forall|i: int| 0 <= i < keys.len() ==> key_wf(#[trigger] keys[i])
}

/// The ASCII bytes of "wsh(multi(".
pub open spec fn policy_header() -> Seq<u8> {
    seq![119u8, 115u8, 104u8, 40u8, 109u8, 117u8, 108u8, 116u8, 105u8, 40u8]
}

/// The ASCII bytes of the derivation suffix "/0/*".
pub open spec fn expr_suffix() -> Seq<u8> {
    seq![47u8, 48u8, 47u8, 42u8]
}

/// One key expression: the key followed by the derivation suffix.
pub open spec fn expr_of(k: Seq<u8>) -> Seq<u8> {
    k + expr_suffix()
}

/// The pieces joined by commas.
pub open spec fn join_commas(es: Seq<Seq<u8>>) -> Seq<u8>
    decreases es.len(),
{
    if es.len() == 0 {
        Seq::empty()
    } else if es.len() == 1 {
        es[0]
    } else {
        es[0] + seq![44u8] + join_commas(es.drop_first())
    }
}

/// The part of the policy string before the checksum mark.
pub open spec fn policy_body(m: nat, keys: Seq<Seq<u8>>) -> Seq<u8> {
    policy_header() + dec_rep(m) + seq![44u8] + join_commas(
        keys.map_values(|k: Seq<u8>| expr_of(k)),
    ) + seq![41u8, 41u8]
}

/// The checksum the descriptor-checksum algorithm assigns to a byte string.
pub uninterp spec fn checksum_of(s: Seq<u8>) -> Seq<u8>;

/// The full canonical policy string.
pub open spec fn policy_string(m: nat, keys: Seq<Seq<u8>>) -> Seq<u8> {
    policy_body(m, keys) + seq![35u8] + checksum_of(policy_body(m, keys))
}

/// Relies on miniscript's descriptor-checksum Engine (the BIP-380
/// algorithm): on printable-ASCII input it yields eight characters of the
/// bech32 alphabet, a fixed function of the input bytes.
#[verifier::external_body]
pub(crate) fn checksum8(body: &Vec<u8>) -> (r: Vec<u8>)
    requires
        forall|i: int| 0 <= i < body@.len() ==> 32 <= #[trigger] body@[i] <= 126,
    ensures
        r@ == checksum_of(body@),
        r@.len() == 8,
        forall|i: int| 0 <= i < r@.len()
            ==> (is_digit(#[trigger] r@[i]) && r@[i] != 49) || (97 <= r@[i] <= 122 && r@[i] != 98
            && r@[i] != 105 && r@[i] != 111),
{
    let text = core::str::from_utf8(body.as_slice()).expect("input is ASCII");
    let mut engine = miniscript::descriptor::checksum::Engine::new();
    engine.input(text).expect("input is printable ASCII");
    let chars = engine.checksum_chars();
    let mut out: Vec<u8> = Vec::with_capacity(8);
    for c in chars.iter() {
        out.push(*c as u8);
    }
    out
}

/// What parsing and re-serializing an extended public key yields: `None`
/// when the bytes are not a valid key encoding.
pub uninterp spec fn xpub_norm(s: Seq<u8>) -> Option<Seq<u8>>;

/// Relies on bitcoin::bip32::Xpub::from_str and Xpub's Display: a parseable
/// extended public key re-serializes to exactly the accepted bytes, since
/// base58check decoding is injective and encoding is its inverse on every
/// string it accepts; the text is nonempty base58.
#[verifier::external_body]
pub(crate) fn normalize_xpub(s: &Vec<u8>) -> (r: Result<Vec<u8>, Error>)
    ensures
        r matches Ok(v) ==> xpub_norm(s@) == Some(v@) && key_wf(v@) && v@ == s@,
        r is Ok <==> xpub_norm(s@) is Some,
        r matches Err(e) ==> e == Error::InvalidKeyEncoding,
{
    let text = match core::str::from_utf8(s.as_slice()) {
        Ok(text) => text,
        Err(_) => return Err(Error::InvalidKeyEncoding),
    };
    let xpub = match <bitcoin::bip32::Xpub as core::str::FromStr>::from_str(text) {
        Ok(xpub) => xpub,
        Err(_) => return Err(Error::InvalidKeyEncoding),
    };
    Ok(xpub.to_string().into_bytes())
}

/// The compressed key at the non-hardened path `chain/index` under an
/// extended public key given as text, or `None` when the text does not parse
/// or derivation hits the negligible out-of-range case.
pub uninterp spec fn child_key_of(xpub: Seq<u8>, chain: int, index: int) -> Option<Seq<u8>>;

/// Relies on bitcoin::bip32::Xpub::derive_pub over two non-hardened child
/// numbers (Xpub::from_str and PublicKey::serialize converting at either
/// end): the child is a fixed function of key text and indices, 33 bytes led
/// by 0x02 or 0x03.
#[verifier::external_body]
pub(crate) fn derive_child_key(xpub: &Vec<u8>, chain: u32, index: u32) -> (r: Result<
    Vec<u8>,
    Error,
>)
    requires
        chain < 0x8000_0000,
        index < 0x8000_0000,
    ensures
        r matches Ok(v) ==> child_key_of(xpub@, chain as int, index as int) == Some(v@)
            && v@.len() == 33 && (v@[0] == 0x02 || v@[0] == 0x03),
        r is Ok <==> child_key_of(xpub@, chain as int, index as int) is Some,
        r matches Err(e) ==> e == Error::InvalidKeyEncoding,
{
    let text = core::str::from_utf8(xpub.as_slice()).map_err(|_| Error::InvalidKeyEncoding)?;
    let parsed = <bitcoin::bip32::Xpub as core::str::FromStr>::from_str(text)
        .map_err(|_| Error::InvalidKeyEncoding)?;
    let secp = bitcoin::secp256k1::Secp256k1::verification_only();
    let path = [
        bitcoin::bip32::ChildNumber::from_normal_idx(chain).expect("index is non-hardened"),
        bitcoin::bip32::ChildNumber::from_normal_idx(index).expect("index is non-hardened"),
    ];
    match parsed.derive_pub(&secp, &path) {
        Ok(child) => Ok(child.public_key.serialize().to_vec()),
        Err(_) => Err(Error::InvalidKeyEncoding),
    }
}

// ------------------------------------------------------------------
// The parser specification.
// ------------------------------------------------------------------

/// Length of the prefix before the first comma.
pub open spec fn upto_comma_len(s: Seq<u8>) -> nat
    decreases s.len(),
{
    if s.len() == 0 || s[0] == 44 {
        0
    } else {
        (1 + upto_comma_len(s.drop_first())) as nat
    }
}

/// The comma-separated pieces of a byte string.
pub open spec fn split_commas(s: Seq<u8>) -> Seq<Seq<u8>>
    decreases s.len(),
{
    let k = upto_comma_len(s);
    if k >= s.len() {
        seq![s]
    } else {
        seq![s.take(k as int)] + split_commas(s.skip(k as int + 1))
    }
}

/// A parseable key expression: some well-formed key, then the suffix.
pub open spec fn wf_expr(e: Seq<u8>) -> bool {
    e.len() >= 5 && e.skip(e.len() - 4) == expr_suffix() && key_wf(e.take(e.len() - 4))
}

/// The key inside an expression.
pub open spec fn strip_expr(e: Seq<u8>) -> Seq<u8> {
    e.take(e.len() - 4)
}

/// Parses `M,k_1/0/*,..,k_N/0/*`.
pub open spec fn parse_inner(t: Seq<u8>) -> Option<(nat, Seq<Seq<u8>>)> {
    let dl = digits_len(t);
    if dl == 0 {
        None
    } else if dl >= 2 && t[0] == 48 {
        None
    } else if dl >= t.len() {
        None
    } else if t[dl as int] != 44 {
        None
    } else {
        let m = dec_val(t.take(dl as int));
        let exprs = split_commas(t.skip(dl as int + 1));
        if forall|i: int| 0 <= i < exprs.len() ==> wf_expr(#[trigger] exprs[i]) {
            let keys = exprs.map_values(|e: Seq<u8>| strip_expr(e));
            if policy_params_wf(m, keys) {
                Some((m, keys))
            } else {
                None
            }
        } else {
            None
        }
    }
}

/// Parses the part before the checksum mark.
pub open spec fn parse_body(b: Seq<u8>) -> Option<(nat, Seq<Seq<u8>>)> {
    if b.len() < 12 {
        None
    } else if b.take(10) != policy_header() {
        None
    } else if b.skip(b.len() - 2) != seq![41u8, 41u8] {
        None
    } else {
        parse_inner(b.subrange(10, b.len() - 2))
    }
}

/// Parses a full policy string, checksum included: `Some` exactly on strings
/// whose shape is canonical and whose last eight bytes are the checksum of
/// the rest.
pub open spec fn parse_policy_spec(s: Seq<u8>) -> Option<(nat, Seq<Seq<u8>>)> {
    if s.len() < 9 {
        None
    } else if s[s.len() - 9] != 35 {
        None
    } else {
        let body = s.take(s.len() - 9);
        let cs = s.skip(s.len() - 8);
        match parse_body(body) {
            None => None,
            Some((m, keys)) => if checksum_of(body) == cs {
                Some((m, keys))
            } else {
                None
            },
        }
    }
}

// ------------------------------------------------------------------
// Facts about the grammar.
// ------------------------------------------------------------------

/// A digit run followed by a non-digit scans as exactly the run.
pub proof fn lemma_digits_len_concat(a: Seq<u8>, b: Seq<u8>)
    requires
        forall|i: int| 0 <= i < a.len() ==> is_digit(#[trigger] a[i]),
        b.len() >= 1,
        !is_digit(b[0]),
    ensures
        digits_len(a + b) == a.len(),
    decreases a.len(),
{
    if a.len() == 0 {
        assert(a + b =~= b);
    } else {
        lemma_digits_len_concat(a.drop_first(), b);
        assert((a + b).drop_first() =~= a.drop_first() + b);
        assert((a + b)[0] == a[0]);
    }
}

/// Scanning to the first comma: character-level characterization.
pub proof fn lemma_upto_comma_char(s: Seq<u8>, k: int)
    requires
        0 <= k <= s.len(),
        forall|j: int| 0 <= j < k ==> s[j] != 44,
        k < s.len() ==> s[k] == 44,
    ensures
        upto_comma_len(s) == k,
    decreases s.len(),
{
    if k == 0 {
    } else {
        lemma_upto_comma_char(s.drop_first(), k - 1);
        assert(s[0] != 44);
    }
}

/// The position and lack of commas the scan length stands for.
pub proof fn lemma_upto_comma_props(s: Seq<u8>)
    ensures
        upto_comma_len(s) <= s.len(),
        forall|j: int| 0 <= j < upto_comma_len(s) ==> s[j] != 44,
        upto_comma_len(s) < s.len() ==> s[upto_comma_len(s) as int] == 44,
    decreases s.len(),
{
    if s.len() == 0 || s[0] == 44 {
    } else {
        lemma_upto_comma_props(s.drop_first());
        assert forall|j: int| 0 <= j < upto_comma_len(s) implies s[j] != 44 by {
            if j > 0 {
                assert(s[j] == s.drop_first()[j - 1]);
            }
        }
    }
}

/// A comma-free piece followed by a comma scans as the piece.
pub proof fn lemma_upto_comma_concat(e: Seq<u8>, rest: Seq<u8>)
    requires
        forall|i: int| 0 <= i < e.len() ==> e[i] != 44,
    ensures
        upto_comma_len(e + seq![44u8] + rest) == e.len(),
{
    let s = e + seq![44u8] + rest;
    assert(forall|j: int| 0 <= j < e.len() ==> s[j] != 44);
    assert(s[e.len() as int] == 44);
    lemma_upto_comma_char(s, e.len() as int);
}

/// Splitting always yields at least one piece.
pub proof fn lemma_split_len_pos(s: Seq<u8>)
    ensures
        split_commas(s).len() >= 1,
{
}

/// Joining nonempty comma-free pieces and splitting again gives them back.
pub proof fn lemma_split_join(es: Seq<Seq<u8>>)
    requires
        es.len() >= 1,
        forall|i: int| 0 <= i < es.len() ==> (#[trigger] es[i]).len() >= 1,
        forall|i: int, j: int| 0 <= i < es.len() && 0 <= j < es[i].len() ==> es[i][j] != 44,
    ensures
        split_commas(join_commas(es)) == es,
    decreases es.len(),
{
    let s = join_commas(es);
    if es.len() == 1 {
        lemma_upto_comma_char(s, s.len() as int);
        assert(split_commas(s) =~= seq![es[0]]);
        assert(split_commas(s) =~= es);
    } else {
        let rest = join_commas(es.drop_first());
        assert(s == es[0] + seq![44u8] + rest);
        lemma_upto_comma_concat(es[0], rest);
        let k = es[0].len() as int;
        assert(upto_comma_len(s) == k);
        assert(s.len() == k + 1 + rest.len());
        assert(s.take(k) =~= es[0]);
        assert(s.skip(k + 1) =~= rest);
        assert(forall|i: int| 0 <= i < es.drop_first().len()
            ==> (#[trigger] es.drop_first()[i]).len() >= 1) by {
            assert(forall|i: int| 0 <= i < es.drop_first().len()
                ==> es.drop_first()[i] == es[i + 1]);
        }
        assert(forall|i: int, j: int| 0 <= i < es.drop_first().len() && 0 <= j
            < es.drop_first()[i].len() ==> es.drop_first()[i][j] != 44) by {
            assert(forall|i: int| 0 <= i < es.drop_first().len()
                ==> es.drop_first()[i] == es[i + 1]);
        }
        lemma_split_join(es.drop_first());
        assert(split_commas(s) =~= seq![es[0]] + es.drop_first());
        assert(seq![es[0]] + es.drop_first() =~= es);
    }
}

/// Splitting any string and joining the pieces again gives it back.
pub proof fn lemma_join_split(s: Seq<u8>)
    ensures
        join_commas(split_commas(s)) == s,
    decreases s.len(),
{
    let k = upto_comma_len(s) as int;
    lemma_upto_comma_props(s);
    if k >= s.len() {
        assert(split_commas(s) =~= seq![s]);
    } else {
        lemma_join_split(s.skip(k + 1));
        lemma_split_len_pos(s.skip(k + 1));
        let parts = seq![s.take(k)] + split_commas(s.skip(k + 1));
        assert(split_commas(s) == parts);
        assert(parts.len() >= 2);
        assert(parts[0] == s.take(k));
        assert(parts.drop_first() =~= split_commas(s.skip(k + 1)));
        assert(join_commas(parts) == s.take(k) + seq![44u8] + join_commas(
            split_commas(s.skip(k + 1)),
        ));
        assert(s =~= s.take(k) + seq![s[k]] + s.skip(k + 1));
        assert(seq![s[k]] =~= seq![44u8]);
        assert(join_commas(split_commas(s)) =~= s);
    }
}

/// Every byte of a well-formed policy body is printable ASCII.
pub proof fn lemma_body_printable(m: nat, keys: Seq<Seq<u8>>)
    requires
        policy_params_wf(m, keys),
    ensures
        forall|i: int| 0 <= i < policy_body(m, keys).len()
            ==> 32 <= #[trigger] policy_body(m, keys)[i] <= 126,
{
    let exprs = keys.map_values(|k: Seq<u8>| expr_of(k));
    assert(forall|i: int, j: int| 0 <= i < exprs.len() && 0 <= j < exprs[i].len()
        ==> 32 <= #[trigger] exprs[i][j] <= 126) by {
        assert forall|i: int, j: int| 0 <= i < exprs.len() && 0 <= j < exprs[i].len()
            implies 32 <= #[trigger] exprs[i][j] <= 126 by {
            assert(exprs[i] == expr_of(keys[i]));
            assert(key_wf(keys[i]));
            if j < keys[i].len() {
                assert(exprs[i][j] == keys[i][j]);
                assert(is_base58(keys[i][j]));
            } else {
                assert(exprs[i][j] == expr_suffix()[j - keys[i].len()]);
            }
        }
    }
    lemma_join_printable(exprs);
    lemma_dec_rep_shape(m);
    let body = policy_body(m, keys);
    let join = join_commas(exprs);
    let dm = dec_rep(m);
    assert forall|i: int| 0 <= i < body.len() implies 32 <= #[trigger] body[i] <= 126 by {
        let h = policy_header();
        if i < 10 {
            assert(body[i] == h[i]);
        } else if i < 10 + dm.len() {
            assert(body[i] == dm[i - 10]);
            assert(is_digit(dm[i - 10]));
        } else if i == 10 + dm.len() {
            assert(body[i] == 44u8);
        } else if i < 10 + dm.len() + 1 + join.len() {
            assert(body[i] == join[i - 10 - dm.len() - 1]);
        } else {
            assert(body[i] == seq![41u8, 41u8][i - 10 - dm.len() - 1 - join.len()]);
        }
    }
}

/// A join of printable pieces is printable.
pub proof fn lemma_join_printable(es: Seq<Seq<u8>>)
    requires
        forall|i: int, j: int| 0 <= i < es.len() && 0 <= j < es[i].len()
            ==> 32 <= #[trigger] es[i][j] <= 126,
    ensures
        forall|i: int| 0 <= i < join_commas(es).len()
            ==> 32 <= #[trigger] join_commas(es)[i] <= 126,
    decreases es.len(),
{
    if es.len() <= 1 {
    } else {
        assert(forall|i: int, j: int| 0 <= i < es.drop_first().len() && 0 <= j
            < es.drop_first()[i].len() ==> 32 <= #[trigger] es.drop_first()[i][j] <= 126) by {
            assert(forall|i: int| 0 <= i < es.drop_first().len()
                ==> es.drop_first()[i] == es[i + 1]);
        }
        lemma_join_printable(es.drop_first());
        let s = join_commas(es);
        let rest = join_commas(es.drop_first());
        assert forall|i: int| 0 <= i < s.len() implies 32 <= #[trigger] s[i] <= 126 by {
            if i < es[0].len() {
                assert(s[i] == es[0][i]);
            } else if i == es[0].len() {
                assert(s[i] == 44u8);
            } else {
                assert(s[i] == rest[i - es[0].len() - 1]);
            }
        }
    }
}

/// Every byte of a well-formed key expression is printable ASCII.
pub proof fn lemma_wf_expr_printable(e: Seq<u8>)
    requires
        wf_expr(e),
    ensures
        forall|j: int| 0 <= j < e.len() ==> 32 <= #[trigger] e[j] <= 126,
{
    let k = e.take(e.len() - 4);
    assert forall|j: int| 0 <= j < e.len() implies 32 <= #[trigger] e[j] <= 126 by {
        if j < e.len() - 4 {
            assert(e[j] == k[j]);
            assert(is_base58(k[j]));
        } else {
            assert(e[j] == e.skip(e.len() - 4)[j - (e.len() - 4)]);
            assert(e.skip(e.len() - 4) == expr_suffix());
        }
    }
}

/// Every byte of the header is printable ASCII.
pub proof fn lemma_header_printable()
    ensures
        forall|j: int| 0 <= j < policy_header().len()
            ==> 32 <= #[trigger] policy_header()[j] <= 126,
{
}

// ------------------------------------------------------------------
// The laws: round trip and order sensitivity.
// ------------------------------------------------------------------

/// A policy string parses back to exactly its threshold and keys.
///
/// Law: for every well-formed threshold and key list, and the eight-byte
/// checksum the checksum algorithm assigns to the body, parsing the built
/// policy string returns the same threshold and the same keys in the same
/// order, after validating the checksum.
pub proof fn lemma_policy_round_trip(m: nat, keys: Seq<Seq<u8>>)
    requires
        policy_params_wf(m, keys),
        checksum_of(policy_body(m, keys)).len() == 8,
    ensures
        parse_policy_spec(policy_string(m, keys)) == Some((m, keys)),
{
    let body = policy_body(m, keys);
    let cs = checksum_of(body);
    let s = policy_string(m, keys);
    let exprs = keys.map_values(|k: Seq<u8>| expr_of(k));
    let join = join_commas(exprs);
    let dm = dec_rep(m);
    lemma_dec_rep_shape(m);
    lemma_dec_rep_val(m);

    // The checksum split comes apart at the '#'.
    assert(s.len() == body.len() + 9);
    assert(s.take(s.len() - 9) =~= body);
    assert(s[s.len() - 9] == 35);
    assert(s.skip(s.len() - 8) =~= cs);

    // The body comes apart into header, inner and the closing parens.
    let inner = dm + seq![44u8] + join;
    assert(body =~= policy_header() + inner + seq![41u8, 41u8]);
    assert(body.len() >= 12);
    assert(body.take(10) =~= policy_header());
    assert(body.skip(body.len() - 2) =~= seq![41u8, 41u8]);
    assert(body.subrange(10, body.len() - 2) =~= inner);

    // The digit scan stops exactly after the threshold.
    assert(forall|i: int| 0 <= i < dm.len() ==> is_digit(#[trigger] dm[i]));
    assert(!is_digit((seq![44u8] + join)[0]));
    assert(inner =~= dm + (seq![44u8] + join));
    lemma_digits_len_concat(dm, seq![44u8] + join);
    let dl = digits_len(inner) as int;
    assert(dl == dm.len());
    assert(m >= 1 ==> inner[0] != 48);
    assert(dl < inner.len());
    assert(inner[dl] == 44);
    assert(inner.take(dl) =~= dm);
    assert(dec_val(inner.take(dl)) == m);
    assert(inner.skip(dl + 1) =~= join);

    // Splitting the joined expressions gives them back.
    assert(forall|i: int| 0 <= i < exprs.len() ==> (#[trigger] exprs[i]).len() >= 1) by {
        assert(forall|i: int| 0 <= i < exprs.len() ==> exprs[i] == expr_of(keys[i]));
    }
    assert(forall|i: int, j: int| 0 <= i < exprs.len() && 0 <= j < exprs[i].len()
        ==> exprs[i][j] != 44) by {
        assert forall|i: int, j: int| 0 <= i < exprs.len() && 0 <= j < exprs[i].len()
            implies exprs[i][j] != 44 by {
            assert(exprs[i] == expr_of(keys[i]));
            assert(key_wf(keys[i]));
            if j < keys[i].len() {
                assert(exprs[i][j] == keys[i][j]);
                assert(is_base58(keys[i][j]));
            } else {
                assert(exprs[i][j] == expr_suffix()[j - keys[i].len()]);
            }
        }
    }
    lemma_split_join(exprs);

    // Each expression is well formed and strips back to its key.
    assert(forall|i: int| 0 <= i < exprs.len() ==> wf_expr(#[trigger] exprs[i])) by {
        assert forall|i: int| 0 <= i < exprs.len() implies wf_expr(#[trigger] exprs[i]) by {
            assert(exprs[i] == expr_of(keys[i]));
            assert(key_wf(keys[i]));
            assert(exprs[i].len() == keys[i].len() + 4);
            assert(exprs[i].skip(exprs[i].len() - 4) =~= expr_suffix());
            assert(exprs[i].take(exprs[i].len() - 4) =~= keys[i]);
        }
    }
    assert(exprs.map_values(|e: Seq<u8>| strip_expr(e)) =~= keys) by {
        assert forall|i: int| 0 <= i < exprs.len()
            implies exprs.map_values(|e: Seq<u8>| strip_expr(e))[i] == keys[i] by {
            assert(exprs[i] == expr_of(keys[i]));
            assert(strip_expr(exprs[i]) =~= keys[i]);
        }
    }
    assert(parse_inner(inner) == Some((m, keys)));
    assert(parse_body(body) == Some((m, keys)));
    assert(parse_policy_spec(s) == Some((m, keys)));
}

/// Key order is part of wallet identity.
///
/// Law: two distinct keys produce different two-key policy strings in the
/// two orders, under any assignment of eight-byte checksums to the bodies —
/// unlike beacon derivation, which sorts first.
pub proof fn lemma_policy_order_sensitive(x: Seq<u8>, y: Seq<u8>)
    requires
        key_wf(x),
        key_wf(y),
        x != y,
        checksum_of(policy_body(2, seq![x, y])).len() == 8,
        checksum_of(policy_body(2, seq![y, x])).len() == 8,
    ensures
        policy_string(2, seq![x, y]) != policy_string(2, seq![y, x]),
{
    assert(policy_params_wf(2, seq![x, y]));
    assert(policy_params_wf(2, seq![y, x]));
    lemma_policy_round_trip(2, seq![x, y]);
    lemma_policy_round_trip(2, seq![y, x]);
    if policy_string(2, seq![x, y]) == policy_string(2, seq![y, x]) {
        assert(Some((2nat, seq![x, y])) == Some((2nat, seq![y, x])));
        assert(seq![x, y][0] == seq![y, x][0]);
        assert(false);
    }
}

} // verus!
