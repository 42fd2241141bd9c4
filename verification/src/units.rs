//! Difficulty targets and hash rates, up to the point where floating point takes over.

use vstd::arithmetic::power::*;
use vstd::prelude::*;

use crate::bytes::{be_value, lemma_be_value_bound, lemma_be_value_concat};

verus! {

/// A difficulty target as `mantissa` times 2 to the power `exponent - 64`.
#[derive(Clone, Copy, Debug)]
pub struct DifficultyParts {
    pub mantissa: u64,
    pub exponent: i32,
}

/// Whether `target` starts with exactly `count` zero bytes.
pub open spec fn has_leading_zeros(target: Seq<u8>, count: int) -> bool {
    &&& 0 <= count <= target.len()
    &&& forall|k: int| 0 <= k < count ==> target[k] == 0
    &&& count < target.len() ==> target[count] != 0
}

/// The `len` bytes of `target` from `from` on, with zeros past its end.
pub open spec fn window(target: Seq<u8>, from: int, len: nat) -> Seq<u8> {
    Seq::new(
        len,
        |k: int|
            if from + k < target.len() {
                target[from + k]
            } else {
                0u8
            },
    )
}

/// Whether these are the parts of a difficulty target: the eight bytes from its first non-zero byte
/// on, and the number of bits from that byte to the end. A target of zero has none.
pub open spec fn are_parts_of(parts: Option<DifficultyParts>, target: Seq<u8>) -> bool {
    match parts {
        None => forall|k: int| 0 <= k < target.len() ==> target[k] == 0,
        Some(parts) => exists|i: int|
            {
                &&& #[trigger] has_leading_zeros(target, i)
                &&& i < target.len()
                &&& parts.mantissa == be_value(window(target, i, 8))
                &&& parts.exponent == (target.len() - i) * 8
            },
    }
}

/// Splits a difficulty target into the eight bytes from its first non-zero byte on and the number
/// of bits from that byte to the end. A target of zero has no such byte: its normalized difficulty
/// is infinite.
pub fn difficulty_parts(target: &[u8; 32]) -> (r: Option<DifficultyParts>)
    ensures
        are_parts_of(r, target@),
{
    let mut i: usize = 0;
    while i < 32 && target[i] == 0
        invariant
            0 <= i <= 32,
            forall|k: int| 0 <= k < i ==> target@[k] == 0,
        decreases 32 - i,
    {
        i += 1;
    }
    if i == 32 {
        return None;
    }
    let mut mantissa: u64 = 0;
    let mut k: usize = 0;
    assert(window(target@, i as int, 0) =~= Seq::<u8>::empty());
    while k < 8
        invariant
            0 <= i < 32,
            0 <= k <= 8,
            mantissa == be_value(window(target@, i as int, k as nat)),
        decreases 8 - k,
    {
        let byte: u8 = if i + k < 32 {
            target[i + k]
        } else {
            0
        };
        proof {
            let before = window(target@, i as int, k as nat);
            let after = window(target@, i as int, (k + 1) as nat);
            assert(after.drop_last() =~= before);
            assert(after.last() == byte);
            lemma_be_value_bound(after);
            lemma_power_table(k as nat + 1);
        }
        mantissa = mantissa * 256 + byte as u64;
        k += 1;
    }
    assert(has_leading_zeros(target@, i as int));
    Some(DifficultyParts { mantissa, exponent: ((32 - i) * 8) as i32 })
}

/// Up to eight bytes hold less than 2 to the power 64.
proof fn lemma_power_table(n: nat)
    requires
        n <= 8,
    ensures
        pow(256, n) <= 0x1_0000_0000_0000_0000,
{
    reveal(pow);
    reveal_with_fuel(pow, 10);
}

/// The parts of a target bracket it: scaled to a common denominator, the target is at least the
/// mantissa at its exponent and below the next mantissa, and the mantissa fills its top byte. So
/// the parts are off by less than one part in 2 to the power 56.
pub proof fn law_difficulty_parts_bracket_the_target(target: Seq<u8>, i: int)
    requires
        target.len() == 32,
        has_leading_zeros(target, i),
        i < 32,
    ensures
        be_value(window(target, i, 8)) * pow(256, (32 - i) as nat) <= be_value(target) * pow(256, 8),
        be_value(target) * pow(256, 8) < (be_value(window(target, i, 8)) + 1) * pow(
            256,
            (32 - i) as nat,
        ),
        be_value(window(target, i, 8)) >= pow(256, 7),
{
    let zeros = target.take(i);
    let tail = target.skip(i);
    assert(target =~= zeros + tail);
    lemma_be_value_concat(zeros, tail);
    lemma_zeros(zeros);
    assert(0 * pow(256, tail.len()) == 0);
    assert(be_value(target) == be_value(tail));
    let eight = window(target, i, 8);
    let n = (32 - i) as nat;
    // eight zeros behind the tail, and as many bytes of it as the window does not show
    let padded = tail + Seq::new(8, |k: int| 0u8);
    lemma_be_value_concat(tail, Seq::new(8, |k: int| 0u8));
    lemma_zeros(Seq::new(8, |k: int| 0u8));
    assert(be_value(padded) == be_value(tail) * pow(256, 8));
    assert(padded.take(8) =~= eight);
    assert(padded =~= eight + padded.skip(8));
    lemma_be_value_concat(eight, padded.skip(8));
    lemma_be_value_bound(padded.skip(8));
    assert(padded.skip(8).len() == n);
    let m = be_value(eight) as int;
    let p = pow(256, n);
    assert((m + 1) * p == m * p + p) by (nonlinear_arith);
    // the top byte of the window is not zero
    let first = eight.take(1);
    assert(eight =~= first + eight.skip(1));
    lemma_be_value_concat(first, eight.skip(1));
    assert(first.drop_last() =~= Seq::<u8>::empty());
    assert(be_value(first) == eight[0] as nat) by {
        reveal_with_fuel(be_value, 2);
    }
    let q = pow(256, 7);
    let f = be_value(first) as int;
    lemma_pow_positive(256, 7);
    assert(f * q >= q) by (nonlinear_arith)
        requires
            f >= 1,
            q > 0,
    ;
}

/// A smaller target is never given larger parts: its exponent is no larger and, where the exponents
/// are equal, neither is its mantissa; scaled to a common denominator, the parts are in the order
/// of the targets. The target of zero, which is infinitely hard, comes before all others.
pub proof fn law_smaller_targets_have_smaller_parts(
    a: Seq<u8>,
    b: Seq<u8>,
    parts_a: Option<DifficultyParts>,
    parts_b: Option<DifficultyParts>,
)
    requires
        a.len() == 32,
        b.len() == 32,
        be_value(a) <= be_value(b),
        are_parts_of(parts_a, a),
        are_parts_of(parts_b, b),
    ensures
        parts_b is None ==> parts_a is None,
        parts_a matches Some(p) ==> parts_b matches Some(q) && {
            &&& p.exponent <= q.exponent
            &&& p.exponent == q.exponent ==> p.mantissa <= q.mantissa
            &&& p.mantissa * pow(256, (p.exponent / 8) as nat) <= q.mantissa * pow(
                256,
                (q.exponent / 8) as nat,
            )
        },
{
    if parts_a is Some {
        let i = choose|i: int|
            {
                &&& #[trigger] has_leading_zeros(a, i)
                &&& i < 32
                &&& parts_a->0.mantissa == be_value(window(a, i, 8))
                &&& parts_a->0.exponent == (32 - i) * 8
            };
        law_difficulty_parts_bracket_the_target(a, i);
        let m = be_value(window(a, i, 8)) as int;
        let pa = pow(256, (32 - i) as nat);
        let top = pow(256, 7);
        let whole = pow(256, 8);
        lemma_pow_positive(256, (32 - i) as nat);
        lemma_pow_positive(256, 7);
        lemma_pow_positive(256, 8);
        lemma_pow_adds(256, 7, 1);
        lemma_pow1(256);
        assert(whole == 256 * top) by (nonlinear_arith)
            requires
                whole == top * 256,
        ;
        let va = be_value(a) as int;
        let vb = be_value(b) as int;
        assert(va * whole <= vb * whole) by (nonlinear_arith)
            requires
                va <= vb,
                whole > 0,
        ;
        if parts_b is None {
            lemma_zeros(b);
            assert(m * pa > 0) by (nonlinear_arith)
                requires
                    m >= top,
                    top > 0,
                    pa > 0,
            ;
            assert(vb * whole == 0) by (nonlinear_arith)
                requires
                    vb == 0,
            ;
            assert(false);
        }
        let j = choose|j: int|
            {
                &&& #[trigger] has_leading_zeros(b, j)
                &&& j < 32
                &&& parts_b->0.mantissa == be_value(window(b, j, 8))
                &&& parts_b->0.exponent == (32 - j) * 8
            };
        law_difficulty_parts_bracket_the_target(b, j);
        let n = be_value(window(b, j, 8)) as int;
        let pb = pow(256, (32 - j) as nat);
        lemma_pow_positive(256, (32 - j) as nat);
        lemma_be_value_bound(window(a, i, 8));
        lemma_be_value_bound(window(b, j, 8));
        assert(m * pa < (n + 1) * pb);
        assert(parts_a->0.exponent / 8 == 32 - i);
        assert(parts_b->0.exponent / 8 == 32 - j);
        if i < j {
            lemma_step_up(32 - j, 32 - i);
            assert(m * pa >= (n + 1) * pb) by (nonlinear_arith)
                requires
                    m >= top,
                    pa >= 256 * pb,
                    pb > 0,
                    top > 0,
                    n + 1 <= 256 * top,
            ;
            assert(false);
        } else if i == j {
            assert(m <= n) by (nonlinear_arith)
                requires
                    m * pa < (n + 1) * pb,
                    pa == pb,
                    pb > 0,
            ;
            assert(m * pa <= n * pb) by (nonlinear_arith)
                requires
                    m <= n,
                    pa == pb,
                    pb > 0,
            ;
        } else {
            lemma_step_up(32 - i, 32 - j);
            assert(m * pa <= n * pb) by (nonlinear_arith)
                requires
                    0 <= m < 256 * top,
                    n >= top,
                    pb >= 256 * pa,
                    pa > 0,
                    top > 0,
            ;
        }
    }
}

/// A larger power of 256 is at least 256 times a smaller one.
proof fn lemma_step_up(low: int, high: int)
    requires
        0 <= low < high,
    ensures
        pow(256, high as nat) >= 256 * pow(256, low as nat),
{
    let rest = (high - low) as nat;
    let p = pow(256, low as nat);
    let q = pow(256, rest);
    lemma_pow_adds(256, low as nat, rest);
    lemma_pow_positive(256, low as nat);
    lemma_pow_increases(256, 1, rest);
    lemma_pow1(256);
    assert(p * q >= 256 * p) by (nonlinear_arith)
        requires
            q >= 256,
            p > 0,
    ;
}

/// A string of zeros writes zero.
proof fn lemma_zeros(bytes: Seq<u8>)
    requires
        forall|k: int| 0 <= k < bytes.len() ==> bytes[k] == 0,
    ensures
        be_value(bytes) == 0,
    decreases bytes.len(),
{
    if bytes.len() > 0 {
        lemma_zeros(bytes.drop_last());
    }
}

/// How many units a hash rate can be shown in.
pub const UNIT_COUNT: usize = 5;

/// The name of a unit, each a thousand times the one before.
pub open spec fn unit_name(unit: int) -> Seq<char> {
    if unit == 0 {
        "H/s"@
    } else if unit == 1 {
        "kH/s"@
    } else if unit == 2 {
        "MH/s"@
    } else if unit == 3 {
        "GH/s"@
    } else {
        "TH/s"@
    }
}

/// The name of a unit.
pub fn unit_label(unit: usize) -> (r: &'static str)
    requires
        unit < UNIT_COUNT,
    ensures
        r@ == unit_name(unit as int),
{
    match unit {
        0 => "H/s",
        1 => "kH/s",
        2 => "MH/s",
        3 => "GH/s",
        _ => "TH/s",
    }
}

/// Whether a rate is shown in the next larger unit: it reaches a thousand of this one, and there
/// is a larger one.
pub fn takes_next_unit(unit: usize, reaches_thousand: bool) -> (r: bool)
    ensures
        r == (reaches_thousand && unit + 1 < UNIT_COUNT),
{
    reaches_thousand && unit < UNIT_COUNT - 1
}

/// The parts of a target say what it is, in numbers. There are none exactly for the target zero.
/// Otherwise the exponent counts whole bytes, the mantissa has its eight bytes filled from the top,
/// and the target lies between the mantissa and the next one, at that exponent. No other parts do
/// that.
pub proof fn law_parts_stand_for_their_target(target: Seq<u8>, parts: Option<DifficultyParts>)
    requires
        target.len() == 32,
        are_parts_of(parts, target),
    ensures
        parts is None <==> be_value(target) == 0,
        parts matches Some(p) ==> {
            let unit = pow(256, (p.exponent / 8) as nat);
            &&& 8 <= p.exponent <= 256
            &&& p.exponent % 8 == 0
            &&& p.mantissa >= 0x100_0000_0000_0000
            &&& p.mantissa * unit <= be_value(target) * pow(256, 8)
            &&& be_value(target) * pow(256, 8) < (p.mantissa + 1) * unit
        },
{
    if parts is None {
        lemma_zeros(target);
    } else {
        let p = parts->0;
        let i = choose|i: int|
            {
                &&& #[trigger] has_leading_zeros(target, i)
                &&& i < 32
                &&& p.mantissa == be_value(window(target, i, 8))
                &&& p.exponent == (32 - i) * 8
            };
        law_difficulty_parts_bracket_the_target(target, i);
        assert(p.exponent / 8 == 32 - i);
        let unit = pow(256, (32 - i) as nat);
        lemma_pow_positive(256, (32 - i) as nat);
        reveal_with_fuel(pow, 9);
        assert(pow(256, 7) == 0x100_0000_0000_0000);
        let m = p.mantissa as int;
        let whole = pow(256, 8);
        let value = be_value(target) as int;
        assert(m * unit > 0) by (nonlinear_arith)
            requires
                m > 0,
                unit > 0,
        ;
        if value == 0 {
            assert(value * whole == 0) by (nonlinear_arith)
                requires
                    value == 0,
            ;
            assert(false);
        }
    }
}

} // verus!
