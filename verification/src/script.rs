//! Canonical M-of-N multisig witness scripts.
//!
//! The script is `OP_M <key_1> .. <key_N> OP_N OP_CHECKMULTISIG`, with each
//! key pushed as 33 bytes and the counts encoded as the small-number opcodes
//! `OP_1..OP_16` or, from 17 to 20, as a one-byte data push.

use vstd::prelude::*;

verus! {

/// The script encoding of a signer count between 1 and 20.
pub open spec fn script_num(k: nat) -> Seq<u8> {
    if k <= 16 {
        seq![(0x50 + k) as u8]
    } else {
        seq![1u8, k as u8]
    }
}

/// The concatenated 33-byte pushes of the keys, in order.
pub open spec fn keys_concat(keys: Seq<Seq<u8>>) -> Seq<u8>
    decreases keys.len(),
{
    if keys.len() == 0 {
        Seq::empty()
    } else {
        seq![0x21u8] + keys[0] + keys_concat(keys.drop_first())
    }
}

/// The canonical M-of-N multisig script over `keys`, in the order given.
pub open spec fn multisig_script_spec(m: nat, keys: Seq<Seq<u8>>) -> Seq<u8> {
    script_num(m) + keys_concat(keys) + script_num(keys.len()) + seq![0xaeu8]
}

/// Builds the canonical multisig script bytes.
pub fn multisig_script(keys: &Vec<Vec<u8>>, m: usize) -> (r: Vec<u8>)
    requires
        1 <= m <= keys@.len(),
        keys@.len() <= 20,
        forall|i: int| 0 <= i < keys@.len() ==> #[trigger] keys@[i]@.len() == 33,
    ensures
        r@ == multisig_script_spec(m as nat, keys@.map_values(|k: Vec<u8>| k@)),
{
    let ghost key_seqs = keys@.map_values(|k: Vec<u8>| k@);
    let mut script: Vec<u8> = Vec::new();
    push_script_num(&mut script, m);

    let n: usize = keys.len();
    let mut i: usize = 0;
    while i < n
        invariant
            i <= n,
            n == keys@.len(),
            1 <= m <= n <= 20,
            forall|j: int| 0 <= j < keys@.len() ==> #[trigger] keys@[j]@.len() == 33,
            key_seqs == keys@.map_values(|k: Vec<u8>| k@),
            script@ == script_num(m as nat) + keys_concat(key_seqs.take(i as int)),
        decreases n - i,
    {
        script.push(0x21u8);
        let key = &keys[i];
        script.extend_from_slice(key.as_slice());
        i = i + 1;
        proof {
            lemma_keys_concat_snoc(key_seqs, i as int);
            assert(script@ =~= script_num(m as nat) + keys_concat(key_seqs.take(i as int)));
        }
    }
    proof {
        assert(key_seqs.take(n as int) =~= key_seqs);
    }
    push_script_num(&mut script, n);
    script.push(0xaeu8);
    proof {
        assert(script@ =~= multisig_script_spec(m as nat, key_seqs));
    }
    script
}

/// Appending one key extends the concatenation by its push.
proof fn lemma_keys_concat_snoc(keys: Seq<Seq<u8>>, i: int)
    requires
        0 < i <= keys.len(),
    ensures
        keys_concat(keys.take(i)) == keys_concat(keys.take(i - 1)) + (seq![0x21u8] + keys[i - 1]),
    decreases i,
{
    if i == 1 {
        assert(keys.take(0).len() == 0);
        assert(keys.take(1)[0] == keys[0]);
        assert(keys.take(1).drop_first() =~= keys.take(0));
        assert(keys_concat(keys.take(1)) =~= keys_concat(keys.take(0)) + (seq![0x21u8] + keys[0]));
    } else {
        lemma_keys_concat_snoc(keys.drop_first(), i - 1);
        assert(keys.take(i).drop_first() =~= keys.drop_first().take(i - 1));
        assert(keys.take(i - 1).drop_first() =~= keys.drop_first().take(i - 2));
        assert(keys.take(i)[0] == keys[0]);
        assert(keys.take(i - 1)[0] == keys[0]);
        assert(keys.drop_first()[i - 2] == keys[i - 1]);
        assert(keys_concat(keys.take(i)) =~= keys_concat(keys.take(i - 1)) + (seq![0x21u8]
            + keys[i - 1]));
    }
}

/// Appends the number encoding.
fn push_script_num(script: &mut Vec<u8>, k: usize)
    requires
        1 <= k <= 20,
    ensures
        final(script)@ == old(script)@ + script_num(k as nat),
{
    if k <= 16 {
        let op: u8 = 0x50 + (k as u8);
        script.push(op);
        proof {
            assert(script@ =~= old(script)@ + script_num(k as nat));
        }
    } else {
        script.push(1u8);
        script.push(k as u8);
        proof {
            assert(script@ =~= old(script)@ + script_num(k as nat));
        }
    }
}

} // verus!
