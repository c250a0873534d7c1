//! Byte strings read as unsigned numbers, least significant byte first.

use vstd::prelude::*;

verus! {

/// 256 to the power `n`.
pub open spec fn pow256(n: nat) -> nat
    decreases n,
{
    if n == 0 {
        1
    } else {
        256 * pow256((n - 1) as nat)
    }
}

/// The number that `bytes` holds, least significant byte first.
pub open spec fn le_value(bytes: Seq<u8>) -> nat
    decreases bytes.len(),
{
    if bytes.len() == 0 {
        0
    } else {
        bytes[0] as nat + 256 * le_value(bytes.skip(1))
    }
}

/// `pow256` is positive and multiplies over sums of exponents.
pub proof fn lemma_pow256(a: nat, b: nat)
    ensures
        pow256(a) > 0,
        pow256(a + b) == pow256(a) * pow256(b),
    decreases a,
{
    if a == 0 {
        assert(pow256(a + b) == 1 * pow256(b));
    } else {
        lemma_pow256((a - 1) as nat, b);
        assert(pow256(a + b) == 256 * pow256((a + b - 1) as nat));
        assert(pow256(a + b) == 256 * (pow256((a - 1) as nat) * pow256(b)));
        assert(256 * (pow256((a - 1) as nat) * pow256(b)) == (256 * pow256((a - 1) as nat))
            * pow256(b)) by (nonlinear_arith);
    }
}

/// The powers of 256 at the widths of a machine word.
pub proof fn lemma_pow256_words()
    ensures
        pow256(0) == 1,
        pow256(1) == 0x100,
        pow256(4) == 0x1_0000_0000,
        pow256(8) == 0x1_0000_0000_0000_0000,
{
    reveal_with_fuel(pow256, 10);
}

/// A number of `n` bytes is below `256^n`.
pub proof fn lemma_le_value_bound(bytes: Seq<u8>)
    ensures
        le_value(bytes) < pow256(bytes.len()),
    decreases bytes.len(),
{
    if bytes.len() > 0 {
        lemma_le_value_bound(bytes.skip(1));
    }
}

/// The low `at` bytes and the bytes above them add up to the whole number.
pub proof fn lemma_le_value_split(bytes: Seq<u8>, at: int)
    requires
        0 <= at <= bytes.len(),
    ensures
        le_value(bytes) == le_value(bytes.take(at)) + pow256(at as nat) * le_value(
            bytes.skip(at),
        ),
    decreases at,
{
    if at == 0 {
        assert(bytes.skip(0) =~= bytes);
        assert(bytes.take(0) =~= Seq::<u8>::empty());
        assert(1 * le_value(bytes) == le_value(bytes));
    } else {
        let tail = bytes.skip(1);
        lemma_le_value_split(tail, at - 1);
        assert(tail.take(at - 1) =~= bytes.take(at).skip(1));
        assert(tail.skip(at - 1) =~= bytes.skip(at));
        let low = le_value(tail.take(at - 1));
        let high = le_value(bytes.skip(at));
        let p = pow256((at - 1) as nat);
        assert(le_value(bytes.take(at)) == bytes[0] as nat + 256 * low);
        assert(le_value(bytes) == bytes[0] as nat + 256 * (low + p * high));
        assert(256 * (low + p * high) == 256 * low + (256 * p) * high) by (nonlinear_arith);
    }
}

/// Extending a prefix by one byte adds that byte at its weight.
pub proof fn lemma_le_value_step(bytes: Seq<u8>, at: int)
    requires
        0 <= at < bytes.len(),
    ensures
        le_value(bytes.take(at + 1)) == le_value(bytes.take(at)) + pow256(at as nat)
            * bytes[at] as nat,
{
    let prefix = bytes.take(at + 1);
    lemma_le_value_split(prefix, at);
    assert(prefix.take(at) =~= bytes.take(at));
    let top = prefix.skip(at);
    assert(top.len() == 1 && top[0] == bytes[at]);
    assert(top.skip(1).len() == 0);
    assert(le_value(top) == bytes[at] as nat + 256 * le_value(top.skip(1)));
}

/// A string of zero bytes is the number zero.
pub proof fn lemma_le_value_zero(bytes: Seq<u8>)
    requires
        forall|i: int| 0 <= i < bytes.len() ==> bytes[i] == 0,
    ensures
        le_value(bytes) == 0,
    decreases bytes.len(),
{
    if bytes.len() > 0 {
        lemma_le_value_zero(bytes.skip(1));
    }
}

/// Strings that agree above index `at` and differ at `at` compare as
/// their bytes at `at` do.
pub proof fn lemma_le_value_order(a: Seq<u8>, b: Seq<u8>, at: int)
    requires
        a.len() == b.len(),
        0 <= at < a.len(),
        forall|i: int| at < i < a.len() ==> a[i] == b[i],
        a[at] < b[at],
    ensures
        le_value(a) < le_value(b),
{
    lemma_le_value_split(a, at);
    lemma_le_value_split(b, at);
    lemma_le_value_bound(a.take(at));
    lemma_le_value_bound(b.take(at));
    let ta = a.skip(at);
    let tb = b.skip(at);
    assert(ta.skip(1) =~= tb.skip(1));
    assert(le_value(ta) + 1 <= le_value(tb));
    let p = pow256(at as nat);
    assert(p * (le_value(ta) + 1) <= p * le_value(tb)) by (nonlinear_arith)
        requires
            le_value(ta) + 1 <= le_value(tb),
    ;
    assert(p * (le_value(ta) + 1) == p * le_value(ta) + p) by (nonlinear_arith);
}

} // verus!
