//! Byte strings read as big-endian integers.

use vstd::arithmetic::power::*;
use vstd::prelude::*;

verus! {

/// The integer that `bytes` writes in base 256, most significant byte first.
pub open spec fn be_value(bytes: Seq<u8>) -> nat
    decreases bytes.len(),
{
    if bytes.len() == 0 {
        0
    } else {
        be_value(bytes.drop_last()) * 256 + bytes.last() as nat
    }
}

/// A byte string of length `n` writes a number below 256 to the power `n`.
pub proof fn lemma_be_value_bound(bytes: Seq<u8>)
    ensures
        be_value(bytes) < pow(256, bytes.len()),
    decreases bytes.len(),
{
    reveal(pow);
    if bytes.len() > 0 {
        lemma_be_value_bound(bytes.drop_last());
        assert(pow(256, bytes.len()) == 256 * pow(256, (bytes.len() - 1) as nat));
    }
}

/// The value of a concatenation, from the values of its two halves.
pub proof fn lemma_be_value_concat(high: Seq<u8>, low: Seq<u8>)
    ensures
        be_value(high + low) == be_value(high) * pow(256, low.len()) + be_value(low),
    decreases low.len(),
{
    reveal(pow);
    if low.len() == 0 {
        assert(high + low =~= high);
        assert(pow(256, 0) == 1);
        assert(be_value(high) * 1 == be_value(high));
    } else {
        lemma_be_value_concat(high, low.drop_last());
        assert((high + low).drop_last() =~= high + low.drop_last());
        let p = pow(256, (low.len() - 1) as nat);
        assert(pow(256, low.len()) == 256 * p);
        let h = be_value(high) as int;
        let l = be_value(low.drop_last()) as int;
        assert((h * p + l) * 256 == h * (256 * p) + l * 256) by (nonlinear_arith);
    }
}

/// Two strings of one length that first differ at `at` are ordered as the bytes there are.
proof fn lemma_first_difference(a: Seq<u8>, b: Seq<u8>, at: int)
    requires
        a.len() == b.len(),
        0 <= at < a.len(),
        a.take(at) == b.take(at),
        a[at] > b[at],
    ensures
        be_value(a) > be_value(b),
{
    reveal(pow);
    let rest = (a.len() - at - 1) as nat;
    let p = pow(256, rest);
    assert(a =~= a.take(at + 1) + a.skip(at + 1));
    assert(b =~= b.take(at + 1) + b.skip(at + 1));
    lemma_be_value_concat(a.take(at + 1), a.skip(at + 1));
    lemma_be_value_concat(b.take(at + 1), b.skip(at + 1));
    lemma_be_value_bound(b.skip(at + 1));
    assert(a.take(at + 1).drop_last() =~= a.take(at));
    assert(b.take(at + 1).drop_last() =~= b.take(at));
    let high_a = be_value(a.take(at + 1)) as int;
    let high_b = be_value(b.take(at + 1)) as int;
    assert(high_a >= high_b + 1);
    assert(high_a * p >= high_b * p + p) by (nonlinear_arith)
        requires
            high_a >= high_b + 1,
            p >= 0,
    ;
}

/// The order of 32-byte strings, byte by byte from the front, is the order of the numbers that
/// they write: `a` comes after `b` exactly when they agree up to some byte that is larger in `a`.
pub proof fn law_byte_order_is_numeric_order(a: [u8; 32], b: [u8; 32])
    ensures
        be_value(a@) > be_value(b@) <==> exists|at: int|
            0 <= at < 32 && a@.take(at) == b@.take(at) && a@[at] > b@[at],
{
    assert forall|at: int|
        0 <= at < 32 && a@.take(at) == b@.take(at) && a@[at] > b@[at] implies be_value(a@)
        > be_value(b@) by {
        lemma_first_difference(a@, b@, at);
    }
    if be_value(a@) > be_value(b@) {
        assert(a@.take(0) =~= b@.take(0));
        let at = lemma_some_difference(a@, b@, 0);
        if a@[at] < b@[at] {
            lemma_first_difference(b@, a@, at);
        }
    }
}

/// Two strings of one length with different values have a first difference, at or after `from`
/// when they agree before it.
proof fn lemma_some_difference(a: Seq<u8>, b: Seq<u8>, from: int) -> (at: int)
    requires
        a.len() == b.len(),
        0 <= from <= a.len(),
        a.take(from) == b.take(from),
        be_value(a) != be_value(b),
    ensures
        from <= at < a.len(),
        a.take(at) == b.take(at),
        a[at] != b[at],
    decreases a.len() - from,
{
    if from == a.len() {
        assert(a.take(from) =~= a);
        assert(b.take(from) =~= b);
        from
    } else if a[from] != b[from] {
        from
    } else {
        assert(a.take(from + 1) =~= a.take(from).push(a[from]));
        assert(b.take(from + 1) =~= b.take(from).push(b[from]));
        lemma_some_difference(a, b, from + 1)
    }
}

/// Whether `a` comes after `b` in byte order, which is whether it writes the larger number.
pub fn comes_after(a: &[u8; 32], b: &[u8; 32]) -> (r: bool)
    ensures
        r == (be_value(a@) > be_value(b@)),
{
    let mut i: usize = 0;
    while i < 32
        invariant
            0 <= i <= 32,
            a@.take(i as int) == b@.take(i as int),
        decreases 32 - i,
    {
        if a[i] != b[i] {
            proof {
                if a[i as int] > b[i as int] {
                    lemma_first_difference(a@, b@, i as int);
                } else {
                    lemma_first_difference(b@, a@, i as int);
                }
            }
            return a[i] > b[i];
        }
        assert(a@.take(i + 1) =~= a@.take(i as int).push(a@[i as int]));
        assert(b@.take(i + 1) =~= b@.take(i as int).push(b@[i as int]));
        i += 1;
    }
    assert(a@.take(32) =~= a@);
    assert(b@.take(32) =~= b@);
    false
}

/// A byte string is read digit by digit: nothing writes zero, and each byte behind the others makes
/// the number 256 times as large and adds its own value.
pub proof fn law_bytes_are_digits(bytes: Seq<u8>, byte: u8)
    ensures
        be_value(Seq::empty()) == 0,
        be_value(bytes.push(byte)) == 256 * be_value(bytes) + byte,
{
    assert(bytes.push(byte).drop_last() =~= bytes);
}

} // verus!
