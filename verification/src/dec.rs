//! Decimal rendering of the threshold inside a policy string.
//!
//! The canonical policy string writes the threshold in base ten without
//! leading zeros; these lemmas make that rendering invertible, which the
//! policy round-trip proof rests on.

use vstd::prelude::*;

verus! {

/// An ASCII decimal digit.
pub open spec fn is_digit(b: u8) -> bool {
    48 <= b <= 57
}

/// Length of the digit prefix of a byte string.
pub open spec fn digits_len(s: Seq<u8>) -> nat
    decreases s.len(),
{
    if s.len() == 0 || !is_digit(s[0]) {
        0
    } else {
        (1 + digits_len(s.drop_first())) as nat
    }
}

/// The decimal rendering of `n`, most significant digit first.
pub open spec fn dec_rep(n: nat) -> Seq<u8>
    decreases n,
{
    if n < 10 {
        seq![(48 + n) as u8]
    } else {
        dec_rep(n / 10) + seq![(48 + n % 10) as u8]
    }
}

/// `10^k`.
pub open spec fn pow10(k: nat) -> nat
    decreases k,
{
    if k == 0 {
        1
    } else {
        10 * pow10((k - 1) as nat)
    }
}

/// The value of a digit string, most significant digit first.
pub open spec fn dec_val(s: Seq<u8>) -> nat
    decreases s.len(),
{
    if s.len() == 0 {
        0
    } else {
        (((s[0] - 48) * pow10((s.len() - 1) as nat) + dec_val(s.drop_first()))) as nat
    }
}

/// Appending a digit multiplies the value by ten and adds it.
pub proof fn lemma_dec_val_snoc(s: Seq<u8>, d: u8)
    requires
        is_digit(d),
        forall|i: int| 0 <= i < s.len() ==> is_digit(#[trigger] s[i]),
    ensures
        dec_val(s + seq![d]) == dec_val(s) * 10 + (d - 48),
    decreases s.len(),
{
    let t = s + seq![d];
    if s.len() == 0 {
        assert(t =~= seq![d]);
        assert(t.drop_first() =~= Seq::<u8>::empty());
        assert(dec_val(t.drop_first()) == 0);
        assert(pow10(0) == 1);
        assert(dec_val(t) == ((t[0] - 48) * 1 + 0) as nat);
        assert(dec_val(s) == 0);
    } else {
        lemma_dec_val_snoc(s.drop_first(), d);
        assert(t.drop_first() =~= s.drop_first() + seq![d]);
        assert(t[0] == s[0]);
        assert(t.len() == s.len() + 1);
        let p = pow10((s.len() - 1) as nat) as int;
        let x = s[0] - 48;
        let y = dec_val(s.drop_first()) as int;
        assert(pow10(s.len()) == 10 * p);
        lemma_pow10_pos((s.len() - 1) as nat);
        assert(x >= 0 && y >= 0 && p >= 1);
        assert(dec_val(t) == (x * (10 * p) + (y * 10 + (d - 48))) as nat);
        assert(dec_val(s) == (x * p + y) as nat);
        assert(x * (10 * p) + (y * 10 + (d - 48)) == (x * p + y) * 10 + (d - 48))
            by (nonlinear_arith);
        assert(dec_val(t) == dec_val(s) * 10 + (d - 48));
    }
}

/// Powers of ten are positive.
pub proof fn lemma_pow10_pos(k: nat)
    ensures
        pow10(k) >= 1,
    decreases k,
{
    if k > 0 {
        lemma_pow10_pos((k - 1) as nat);
    }
}

/// Every rendered byte is a digit, and the first is nonzero past one digit.
pub proof fn lemma_dec_rep_shape(n: nat)
    ensures
        dec_rep(n).len() >= 1,
        forall|i: int| 0 <= i < dec_rep(n).len() ==> is_digit(#[trigger] dec_rep(n)[i]),
        n >= 1 ==> dec_rep(n)[0] != 48,
        n < 10 ==> dec_rep(n).len() == 1,
        n >= 10 ==> dec_rep(n).len() >= 2,
    decreases n,
{
    if n < 10 {
    } else {
        lemma_dec_rep_shape(n / 10);
    }
}

/// Rendering then reading a number gives it back.
pub proof fn lemma_dec_rep_val(n: nat)
    ensures
        dec_val(dec_rep(n)) == n,
    decreases n,
{
    if n < 10 {
        let s = dec_rep(n);
        assert(s =~= seq![(48 + n) as u8]);
        assert(s.drop_first() =~= Seq::<u8>::empty());
        assert(s[0] == (48 + n) as u8);
        assert(s[0] - 48 == n);
        assert(dec_val(s.drop_first()) == 0);
        assert(pow10(0) == 1);
        assert(dec_val(s) == ((s[0] - 48) * 1 + 0) as nat);
    } else {
        lemma_dec_rep_val(n / 10);
        lemma_dec_rep_shape(n / 10);
        let d = (48 + n % 10) as u8;
        lemma_dec_val_snoc(dec_rep(n / 10), d);
        assert(d - 48 == n % 10);
        assert(dec_val(dec_rep(n)) == (n / 10) * 10 + n % 10);
        assert((n / 10) * 10 + n % 10 == n) by (nonlinear_arith);
    }
}

/// A digit string without a leading zero is worth at least `10^(len-1)`.
pub proof fn lemma_dec_val_lower(s: Seq<u8>)
    requires
        s.len() >= 1,
        forall|i: int| 0 <= i < s.len() ==> is_digit(#[trigger] s[i]),
        s[0] != 48,
    ensures
        dec_val(s) >= pow10((s.len() - 1) as nat),
{
    assert(s[0] >= 49);
    assert((s[0] - 48) * pow10((s.len() - 1) as nat) >= 1 * pow10((s.len() - 1) as nat))
        by (nonlinear_arith)
        requires s[0] >= 49;
}

/// The digit scan stops exactly where the digits stop.
pub proof fn lemma_digits_len_char(s: Seq<u8>, k: int)
    requires
        0 <= k <= s.len(),
        forall|j: int| 0 <= j < k ==> is_digit(#[trigger] s[j]),
        k < s.len() ==> !is_digit(s[k]),
    ensures
        digits_len(s) == k,
    decreases s.len(),
{
    if k == 0 {
    } else {
        lemma_digits_len_char(s.drop_first(), k - 1);
        assert(is_digit(s[0]));
    }
}

/// The value of a single digit.
pub proof fn lemma_dec_val_one(b: u8)
    requires
        is_digit(b),
    ensures
        dec_val(seq![b]) == b - 48,
{
    let s = seq![b];
    assert(s.drop_first() =~= Seq::<u8>::empty());
    assert(dec_val(s.drop_first()) == 0);
    assert(pow10(0) == 1);
    assert(dec_val(s) == ((b - 48) * 1 + 0) as nat);
}

/// The value of a two-digit string.
pub proof fn lemma_dec_val_two(b0: u8, b1: u8)
    requires
        is_digit(b0),
        is_digit(b1),
    ensures
        dec_val(seq![b0, b1]) == (b0 - 48) * 10 + (b1 - 48),
{
    let s = seq![b0, b1];
    assert(s.drop_first() =~= seq![b1]);
    lemma_dec_val_one(b1);
    assert(pow10(1) == 10 * pow10(0));
    assert(pow10(0) == 1);
    assert(dec_val(s) == ((b0 - 48) * pow10(1) + dec_val(s.drop_first())) as nat);
    assert((b0 - 48) * pow10(1) == (b0 - 48) * 10) by (nonlinear_arith)
        requires pow10(1) == 10;
}

/// Renders a threshold of at most two digits.
pub fn render_small(n: usize) -> (r: Vec<u8>)
    requires
        1 <= n <= 20,
    ensures
        r@ == dec_rep(n as nat),
{
    let mut v: Vec<u8> = Vec::new();
    if n < 10 {
        v.push(48 + (n as u8));
        proof {
            assert(v@ =~= dec_rep(n as nat));
        }
    } else {
        v.push(48 + ((n / 10) as u8));
        v.push(48 + ((n % 10) as u8));
        proof {
            assert(dec_rep((n / 10) as nat) =~= seq![(48 + n / 10) as u8]);
            assert(v@ =~= dec_rep(n as nat));
        }
    }
    v
}

} // verus!
