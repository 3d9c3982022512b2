//! Byte-string order and big-endian integer interpretation.
//!
//! Beacon derivation sorts the two key serializations byte-lexicographically
//! and interprets the 32-byte tweak as a big-endian integer that must lie in
//! `[1, n-1]` for the curve order `n`. This module gives both readings and
//! proves that, on equal-length strings, the lexicographic comparison decides
//! the numeric one.

use vstd::prelude::*;
use vstd::arithmetic::mul::*;

verus! {

/// Byte-lexicographic `<=` on arbitrary byte strings.
pub open spec fn lex_le(a: Seq<u8>, b: Seq<u8>) -> bool
    decreases a.len(),
{
    if a.len() == 0 {
        true
    } else if b.len() == 0 {
        false
    } else if a[0] < b[0] {
        true
    } else if a[0] > b[0] {
        false
    } else {
        lex_le(a.drop_first(), b.drop_first())
    }
}

/// `256^k`.
pub open spec fn pow256(k: nat) -> nat
    decreases k,
{
    if k == 0 {
        1
    } else {
        256 * pow256((k - 1) as nat)
    }
}

/// The big-endian unsigned integer a byte string denotes.
pub open spec fn be_uint(s: Seq<u8>) -> nat
    decreases s.len(),
{
    if s.len() == 0 {
        0
    } else {
        (s[0] * pow256((s.len() - 1) as nat) + be_uint(s.drop_first())) as nat
    }
}

pub proof fn lemma_be_uint_bound(s: Seq<u8>)
    ensures
        be_uint(s) < pow256(s.len()),
    decreases s.len(),
{
    if s.len() == 0 {
    } else {
        lemma_be_uint_bound(s.drop_first());
        let p = pow256((s.len() - 1) as nat);
        assert(s[0] <= 255);
        lemma_mul_inequality(s[0] as int, 255, p as int);
        assert(255 * p + p == 256 * p);
    }
}

/// On equal-length strings the lexicographic order is the numeric order.
pub proof fn lemma_lex_is_numeric(a: Seq<u8>, b: Seq<u8>)
    requires
        a.len() == b.len(),
    ensures
        lex_le(a, b) <==> be_uint(a) <= be_uint(b),
    decreases a.len(),
{
    if a.len() == 0 {
    } else {
        let p = pow256((a.len() - 1) as nat);
        let ra = be_uint(a.drop_first());
        let rb = be_uint(b.drop_first());
        lemma_be_uint_bound(a.drop_first());
        lemma_be_uint_bound(b.drop_first());
        lemma_lex_is_numeric(a.drop_first(), b.drop_first());
        if a[0] < b[0] {
            lemma_mul_inequality(a[0] + 1, b[0] as int, p as int);
            assert((a[0] + 1) * p == a[0] * p + p) by (nonlinear_arith);
            assert(be_uint(a) <= be_uint(b));
        } else if a[0] > b[0] {
            lemma_mul_inequality(b[0] + 1, a[0] as int, p as int);
            assert((b[0] + 1) * p == b[0] * p + p) by (nonlinear_arith);
            assert(be_uint(b) < be_uint(a));
        } else {
        }
    }
}

/// Equal-length strings with equal values are equal.
pub proof fn lemma_be_uint_injective(a: Seq<u8>, b: Seq<u8>)
    requires
        a.len() == b.len(),
        be_uint(a) == be_uint(b),
    ensures
        a =~= b,
    decreases a.len(),
{
    if a.len() == 0 {
    } else {
        let p = pow256((a.len() - 1) as nat);
        lemma_be_uint_bound(a.drop_first());
        lemma_be_uint_bound(b.drop_first());
        if a[0] != b[0] {
            lemma_lex_is_numeric(a, b);
            lemma_lex_is_numeric(b, a);
            assert(false);
        }
        lemma_be_uint_injective(a.drop_first(), b.drop_first());
        assert(a =~= seq![a[0]] + a.drop_first());
        assert(b =~= seq![b[0]] + b.drop_first());
    }
}

/// Exact byte-lexicographic comparison.
pub fn lex_le_bytes(a: &Vec<u8>, b: &Vec<u8>) -> (r: bool)
    ensures
        r == lex_le(a@, b@),
{
    let n: usize = if a.len() < b.len() { a.len() } else { b.len() };
    let mut i: usize = 0;
    proof {
        assert(a@.skip(0) =~= a@);
        assert(b@.skip(0) =~= b@);
    }
    while i < n
        invariant
            i <= n,
            n == if a@.len() < b@.len() { a@.len() } else { b@.len() },
            forall|j: int| 0 <= j < i ==> a@[j] == b@[j],
            lex_le(a@, b@) == lex_le(a@.skip(i as int), b@.skip(i as int)),
        decreases n - i,
    {
        if a[i] < b[i] {
            proof {
                lemma_lex_skip_decided(a@, b@, i as int);
            }
            return true;
        }
        if a[i] > b[i] {
            proof {
                lemma_lex_skip_decided(a@, b@, i as int);
            }
            return false;
        }
        proof {
            lemma_lex_skip(a@, b@, i as int);
        }
        i = i + 1;
    }
    proof {
        lemma_lex_skip_end(a@, b@, n as int);
    }
    a.len() <= b.len()
}

proof fn lemma_lex_skip(a: Seq<u8>, b: Seq<u8>, i: int)
    requires
        0 <= i < a.len(),
        0 <= i < b.len(),
        a[i] == b[i],
    ensures
        lex_le(a.skip(i), b.skip(i)) == lex_le(a.skip(i + 1), b.skip(i + 1)),
{
    assert(a.skip(i).drop_first() =~= a.skip(i + 1));
    assert(b.skip(i).drop_first() =~= b.skip(i + 1));
}

proof fn lemma_lex_skip_decided(a: Seq<u8>, b: Seq<u8>, i: int)
    requires
        0 <= i < a.len(),
        0 <= i < b.len(),
        a[i] != b[i],
    ensures
        lex_le(a.skip(i), b.skip(i)) == (a[i] < b[i]),
{
}

proof fn lemma_lex_skip_end(a: Seq<u8>, b: Seq<u8>, n: int)
    requires
        0 <= n,
        n == if a.len() < b.len() { a.len() as int } else { b.len() as int },
        forall|j: int| 0 <= j < n ==> a[j] == b[j],
    ensures
        lex_le(a.skip(n), b.skip(n)) == (a.len() <= b.len()),
{
    if a.len() <= b.len() {
        assert(a.skip(n).len() == 0);
    } else {
        assert(b.skip(n).len() == 0);
        assert(a.skip(n).len() > 0);
    }
}

/// Exact element-wise equality of byte vectors.
pub fn bytes_equal(a: &Vec<u8>, b: &Vec<u8>) -> (r: bool)
    ensures
        r == (a@ =~= b@),
{
    if a.len() != b.len() {
        return false;
    }
    let n: usize = a.len();
    let mut i: usize = 0;
    while i < n
        invariant
            i <= n,
            n == a@.len(),
            a@.len() == b@.len(),
            forall|j: int| 0 <= j < i ==> a@[j] == b@[j],
        decreases n - i,
    {
        if a[i] != b[i] {
            return false;
        }
        i = i + 1;
    }
    true
}

/// An owned copy of a contiguous range of a byte vector.
pub fn subvec(v: &Vec<u8>, a: usize, b: usize) -> (r: Vec<u8>)
    requires
        a <= b,
        b <= v@.len(),
    ensures
        r@ == v@.subrange(a as int, b as int),
{
    let mut r: Vec<u8> = Vec::new();
    let mut i: usize = a;
    while i < b
        invariant
            a <= i <= b,
            b <= v@.len(),
            r@ =~= v@.subrange(a as int, i as int),
        decreases b - i,
    {
        r.push(v[i]);
        i = i + 1;
        proof {
            assert(r@ =~= v@.subrange(a as int, i as int));
        }
    }
    proof {
        assert(r@ =~= v@.subrange(a as int, b as int));
    }
    r
}

/// The order is total: two strings compare one way or the other.
pub proof fn lemma_lex_total(a: Seq<u8>, b: Seq<u8>)
    ensures
        lex_le(a, b) || lex_le(b, a),
    decreases a.len(),
{
    if a.len() == 0 || b.len() == 0 {
    } else if a[0] == b[0] {
        lemma_lex_total(a.drop_first(), b.drop_first());
    }
}

/// The order is antisymmetric on equal-length strings.
pub proof fn lemma_lex_antisym(a: Seq<u8>, b: Seq<u8>)
    requires
        a.len() == b.len(),
        lex_le(a, b),
        lex_le(b, a),
    ensures
        a =~= b,
    decreases a.len(),
{
    if a.len() == 0 {
    } else {
        lemma_lex_antisym(a.drop_first(), b.drop_first());
        assert(a =~= seq![a[0]] + a.drop_first());
        assert(b =~= seq![b[0]] + b.drop_first());
    }
}

} // verus!
