//! The rounding of double precision arithmetic, in integers: results keep 53 significant bits, and
//! the nearest such number is taken, the even one of two that are equally near.

use vstd::arithmetic::div_mod::lemma_fundamental_div_mod_converse;
use vstd::arithmetic::power2::*;
use vstd::prelude::*;

verus! {

/// The smallest integer with 53 bits.
pub const LEAST_FULL: u128 = 0x10_0000_0000_0000;

/// The smallest integer with 54 bits.
pub const TOO_LONG: u128 = 0x20_0000_0000_0000;

/// The integer nearest to `num / den`, the even one of two that are equally near.
pub open spec fn half_even(num: int, den: int) -> int {
    let low = num / den;
    let rest = num % den;
    if 2 * rest < den || 2 * rest == den && low % 2 == 0 {
        low
    } else {
        low + 1
    }
}

/// What the last of the 53 leading bits of `n` stands for.
pub open spec fn last_place(n: int) -> int
    decreases n,
{
    if n < TOO_LONG {
        1
    } else {
        2 * last_place(n / 2)
    }
}

/// `n` rounded to 53 significant bits.
pub open spec fn rounded(n: int) -> int {
    half_even(n, last_place(n)) * last_place(n)
}

/// A fraction.
pub struct Ratio {
    pub num: int,
    pub den: int,
}

/// Whether a fraction is above `n`.
pub open spec fn is_above(ratio: Ratio, n: int) -> bool {
    ratio.num > n * ratio.den
}

/// The power of two that brings `num / den` to 53 bits before the point, if it has fewer.
pub open spec fn scale_of(num: int, den: int) -> int
    decreases
            if num < den * LEAST_FULL {
                den * LEAST_FULL - num
            } else {
                0
            },
{
    if num <= 0 || num >= den * LEAST_FULL {
        1
    } else {
        2 * scale_of(2 * num, den)
    }
}

/// `num / den` rounded to 53 significant bits, where it has no more than that before the point.
pub open spec fn quotient(num: int, den: int) -> Ratio {
    let scale = scale_of(num, den);
    Ratio { num: half_even(num * scale, den), den: scale }
}

/// Where the nearest integer lies.
pub proof fn lemma_half_even(num: int, den: int)
    requires
        den > 0,
    ensures
        2 * num - den <= 2 * (half_even(num, den) * den) <= 2 * num + den,
{
    let low = num / den;
    let rest = num % den;
    assert(num == low * den + rest && 0 <= rest < den) by (nonlinear_arith)
        requires
            den > 0,
            low == num / den,
            rest == num % den,
    ;
    assert((low + 1) * den == low * den + den) by (nonlinear_arith);
}

/// Of what is not above an integer, the nearest integer is not above it either.
pub proof fn lemma_half_even_at_most(num: int, den: int, bound: int)
    requires
        den > 0,
        2 * num < (2 * bound + 1) * den,
    ensures
        half_even(num, den) <= bound,
{
    lemma_half_even(num, den);
    let h = half_even(num, den);
    let low = num / den;
    let rest = num % den;
    assert(num == low * den + rest && 0 <= rest < den) by (nonlinear_arith)
        requires
            den > 0,
            low == num / den,
            rest == num % den,
    ;
    assert(low <= bound) by (nonlinear_arith)
        requires
            2 * (low * den + rest) < (2 * bound + 1) * den,
            0 <= rest,
            den > 0,
    ;
    if low == bound {
        assert(2 * rest < den) by (nonlinear_arith)
            requires
                2 * (low * den + rest) < (2 * bound + 1) * den,
                low == bound,
        ;
    }
}

/// What lies beyond the middle is rounded up.
pub proof fn lemma_half_even_above(num: int, den: int, bound: int)
    requires
        den > 0,
        2 * num > (2 * bound + 1) * den,
    ensures
        half_even(num, den) > bound,
{
    let low = num / den;
    let rest = num % den;
    assert(num == low * den + rest && 0 <= rest < den) by (nonlinear_arith)
        requires
            den > 0,
            low == num / den,
            rest == num % den,
    ;
    assert(low >= bound) by (nonlinear_arith)
        requires
            2 * (low * den + rest) > (2 * bound + 1) * den,
            rest < den,
            den > 0,
    ;
    if low == bound {
        assert(2 * rest > den) by (nonlinear_arith)
            requires
                2 * (low * den + rest) > (2 * bound + 1) * den,
                low == bound,
        ;
    }
}

/// A larger fraction has no smaller nearest integer.
pub proof fn lemma_half_even_is_monotone(num: int, den: int, more: int, part: int)
    requires
        den > 0,
        part > 0,
        num * part <= more * den,
    ensures
        half_even(num, den) <= half_even(more, part),
{
    let h = half_even(more, part);
    let low = more / part;
    let rest = more % part;
    assert(more == low * part + rest && 0 <= rest < part) by (nonlinear_arith)
        requires
            part > 0,
            low == more / part,
            rest == more % part,
    ;
    if 2 * more < (2 * h + 1) * part {
        assert(2 * num < (2 * h + 1) * den) by (nonlinear_arith)
            requires
                2 * more < (2 * h + 1) * part,
                num * part <= more * den,
                den > 0,
                part > 0,
        ;
        lemma_half_even_at_most(num, den, h);
    } else {
        // the larger fraction lies in the middle, and was rounded down to an even number
        assert(low == h && 2 * rest == part && h % 2 == 0) by {
            lemma_half_even(more, part);
            assert((low + 1) * part == low * part + part) by (nonlinear_arith);
            assert((2 * h + 1) * part == 2 * (h * part) + part) by (nonlinear_arith);
            if h == low + 1 {
                assert(h * part == low * part + part);
                assert(false);
            }
        }
        assert(2 * more == (2 * h + 1) * part) by {
            assert((2 * h + 1) * part == 2 * (h * part) + part) by (nonlinear_arith);
        }
        assert(2 * num <= (2 * h + 1) * den) by (nonlinear_arith)
            requires
                2 * more == (2 * h + 1) * part,
                num * part <= more * den,
                den > 0,
                part > 0,
        {
            assert(2 * num * part <= (2 * h + 1) * den * part);
        }
        if 2 * num < (2 * h + 1) * den {
            lemma_half_even_at_most(num, den, h);
        } else {
            let r = num - h * den;
            assert(2 * r == den) by (nonlinear_arith)
                requires
                    2 * num == (2 * h + 1) * den,
                    r == num - h * den,
            ;
            assert(num == h * den + r);
            lemma_fundamental_div_mod_converse(num, den, h, r);
        }
    }
}

/// What the scale of a fraction does.
pub proof fn lemma_scale(num: int, den: int)
    requires
        num > 0,
        den > 0,
    ensures
        scale_of(num, den) >= 1,
        exists|k: nat| scale_of(num, den) == #[trigger] pow2(k),
        num * scale_of(num, den) >= den * LEAST_FULL,
        scale_of(num, den) > 1 ==> num * scale_of(num, den) < den * TOO_LONG,
    decreases
            if num < den * LEAST_FULL {
                den * LEAST_FULL - num
            } else {
                0
            },
{
    lemma2_to64();
    if num >= den * LEAST_FULL {
        assert(scale_of(num, den) == pow2(0));
    } else {
        lemma_scale(2 * num, den);
        let rest = scale_of(2 * num, den);
        let k = choose|k: nat| rest == #[trigger] pow2(k);
        lemma_pow2_unfold(k + 1);
        assert(scale_of(num, den) == pow2(k + 1));
        assert(num * (2 * rest) == (2 * num) * rest) by (nonlinear_arith);
    }
}

/// Of two powers of two, one that is less than twice the other is at most the other.
pub proof fn lemma_powers_apart(a: int, b: int)
    requires
        exists|k: nat| a == #[trigger] pow2(k),
        exists|k: nat| b == #[trigger] pow2(k),
        a < 2 * b,
    ensures
        a <= b,
{
    let i = choose|k: nat| a == #[trigger] pow2(k);
    let j = choose|k: nat| b == #[trigger] pow2(k);
    if j < i {
        lemma_pow2_unfold(j + 1);
        if j + 1 < i {
            lemma_pow2_strictly_increases(j + 1, i);
        }
    } else if i < j {
        lemma_pow2_strictly_increases(i, j);
    }
}

/// A larger fraction is not rounded to a smaller one.
pub proof fn lemma_quotient_is_monotone(num: int, den: int, more: int, part: int)
    requires
        num > 0,
        den > 0,
        more > 0,
        part > 0,
        num * part <= more * den,
    ensures
        quotient(num, den).num * quotient(more, part).den <= quotient(more, part).num * quotient(
            num,
            den,
        ).den,
{
    let s = scale_of(num, den);
    let t = scale_of(more, part);
    let m = quotient(num, den).num;
    let n = quotient(more, part).num;
    lemma_scale(num, den);
    lemma_scale(more, part);
    if s == t {
        assert((num * s) * part <= (more * t) * den) by (nonlinear_arith)
            requires
                num * part <= more * den,
                s == t,
                s >= 1,
        ;
        lemma_half_even_is_monotone(num * s, den, more * t, part);
        assert(m * t <= n * s) by (nonlinear_arith)
            requires
                m <= n,
                s == t,
                s >= 1,
        ;
    } else if s < t {
        if t < 2 * s {
            lemma_powers_apart(t, s);
        }
        let full = LEAST_FULL as int;
        assert(false) by (nonlinear_arith)
            requires
                num * part <= more * den,
                num * s >= den * full,
                more * t < part * (2 * full),
                t >= 2 * s,
                s >= 1,
                num > 0,
                den > 0,
                part > 0,
        {
            assert(num * t >= 2 * (num * s));
            assert((num * t) * part >= (den * (2 * full)) * part);
            assert((more * t) * den < (part * (2 * full)) * den);
            assert((num * part) * t <= (more * den) * t);
            assert((num * part) * t == (num * t) * part);
            assert((more * den) * t == (more * t) * den);
            assert((den * (2 * full)) * part == (part * (2 * full)) * den);
        }
    } else {
        if s < 2 * t {
            lemma_powers_apart(s, t);
        }
        let full = LEAST_FULL as int;
        assert(2 * (num * s) < (2 * (2 * full) + 1) * den) by (nonlinear_arith)
            requires
                num * s < den * (2 * full),
                den > 0,
        ;
        lemma_half_even_at_most(num * s, den, 2 * full);
        assert(2 * (more * t) > (2 * (full - 1) + 1) * part) by (nonlinear_arith)
            requires
                more * t >= part * full,
                part > 0,
        ;
        lemma_half_even_above(more * t, part, full - 1);
        assert(m * t <= n * s) by (nonlinear_arith)
            requires
                m <= 2 * full,
                n >= full,
                s >= 2 * t,
                t >= 1,
                full > 0,
        {
            assert(m * t <= (2 * full) * t);
            assert(n * s >= full * s);
            assert(full * s >= full * (2 * t));
        }
    }
}

/// What the last place of an integer is.
pub proof fn lemma_last_place(n: int)
    requires
        n >= 0,
    ensures
        last_place(n) >= 1,
        exists|k: nat| last_place(n) == #[trigger] pow2(k),
        n < TOO_LONG * last_place(n),
        last_place(n) > 1 ==> n >= LEAST_FULL * last_place(n),
    decreases n,
{
    lemma2_to64();
    if n < TOO_LONG {
        assert(last_place(n) == pow2(0));
    } else {
        lemma_last_place(n / 2);
        let k = choose|k: nat| last_place(n / 2) == #[trigger] pow2(k);
        lemma_pow2_unfold(k + 1);
        assert(last_place(n) == pow2(k + 1));
    }
}

/// An integer and what it is rounded to are not far apart. Short integers are not rounded.
pub proof fn lemma_rounded(n: int)
    requires
        n >= 0,
    ensures
        n < TOO_LONG ==> rounded(n) == n,
        rounded(n) <= 2 * n,
        n > 0 ==> rounded(n) > 0,
{
    let p = last_place(n);
    lemma_last_place(n);
    lemma_half_even(n, p);
    if n < TOO_LONG {
        assert(n / 1 == n && n % 1 == 0);
        assert(half_even(n, 1) * 1 == n);
    } else {
        assert(p <= n) by (nonlinear_arith)
            requires
                p > 1 ==> n >= LEAST_FULL * p,
                p >= 1,
                n >= TOO_LONG,
        ;
    }
}

/// A larger integer is not rounded to a smaller one.
pub proof fn lemma_rounded_is_monotone(n: int, more: int)
    requires
        0 <= n <= more,
    ensures
        rounded(n) <= rounded(more),
{
    let p = last_place(n);
    let q = last_place(more);
    lemma_last_place(n);
    lemma_last_place(more);
    let h = half_even(n, p);
    let k = half_even(more, q);
    let full = LEAST_FULL as int;
    if p == q {
        assert(n * q <= more * p) by (nonlinear_arith)
            requires
                n <= more,
                p == q,
                p >= 1,
        ;
        lemma_half_even_is_monotone(n, p, more, q);
        assert(h * p <= k * q) by (nonlinear_arith)
            requires
                h <= k,
                p == q,
                p >= 1,
        ;
    } else if p > q {
        if p < 2 * q {
            lemma_powers_apart(p, q);
        }
        assert(false) by (nonlinear_arith)
            requires
                n >= full * p,
                more < (2 * full) * q,
                p >= 2 * q,
                n <= more,
                full > 0,
        {
            assert(full * p >= full * (2 * q));
        }
    } else {
        if q < 2 * p {
            lemma_powers_apart(q, p);
        }
        assert(2 * n < (2 * (2 * full) + 1) * p) by (nonlinear_arith)
            requires
                n < (2 * full) * p,
                p >= 1,
        ;
        lemma_half_even_at_most(n, p, 2 * full);
        assert(2 * more > (2 * (full - 1) + 1) * q) by (nonlinear_arith)
            requires
                more >= full * q,
                q >= 1,
        ;
        lemma_half_even_above(more, q, full - 1);
        assert(h * p <= k * q) by (nonlinear_arith)
            requires
                h <= 2 * full,
                k >= full,
                q >= 2 * p,
                p >= 1,
                full > 0,
        {
            assert(h * p <= (2 * full) * p);
            assert(k * q >= full * q);
            assert(full * q >= full * (2 * p));
        }
    }
}

/// The integer nearest to `num / den`, the even one of two that are equally near.
fn nearest(num: u128, den: u128) -> (r: u128)
    requires
        0 < den <= 0x4000_0000_0000_0000_0000_0000_0000_0000,
        num < u128::MAX,
    ensures
        r == half_even(num as int, den as int),
{
    let low: u128 = num / den;
    let rest: u128 = num % den;
    if 2 * rest < den || 2 * rest == den && low % 2 == 0 {
        low
    } else {
        assert(low <= num) by (nonlinear_arith)
            requires
                den > 0,
                low == num / den,
        ;
        low + 1
    }
}

/// `n` rounded to 53 significant bits.
pub fn round_whole(n: u64) -> (r: u128)
    ensures
        r == rounded(n as int),
{
    let mut rest: u64 = n;
    let mut place: u128 = 1;
    while rest as u128 >= TOO_LONG
        invariant
            place >= 1,
            place * last_place(rest as int) == last_place(n as int),
            place * rest <= n,
        decreases rest,
    {
        let ghost before = rest as int;
        let ghost held = place as int;
        proof {
            let inner = last_place(before / 2);
            assert((held * 2) * inner == held * (2 * inner)) by (nonlinear_arith);
            assert((held * 2) * (before / 2) <= held * before) by (nonlinear_arith)
                requires
                    held >= 1,
                    before >= 0,
            ;
            assert(held <= held * before) by (nonlinear_arith)
                requires
                    held >= 1,
                    before >= 1,
            ;
        }
        rest = rest / 2;
        place = place * 2;
    }
    proof {
        lemma_last_place(n as int);
        lemma_rounded(n as int);
        assert(place * 1 == place);
        assert(place <= n || place == 1) by {
            lemma_last_place(n as int);
            assert(place > 1 ==> n >= place) by (nonlinear_arith)
                requires
                    place > 1 ==> n >= LEAST_FULL * place,
            ;
        }
    }
    let units: u128 = nearest(n as u128, place);
    units * place
}

/// `num / den` rounded to 53 significant bits, as a fraction.
pub fn round_quotient(num: u128, den: u128) -> (r: (u128, u128))
    requires
        0 < num < 0x1000_0000_0000_0000_0000_0000_0000,
        0 < den <= 0x100_0000_0000_0000_0000,
    ensures
        r.0 == quotient(num as int, den as int).num,
        r.1 == quotient(num as int, den as int).den,
        r.0 < 0x4000_0000_0000_0000_0000_0000_0000_0000,
{
    let mut scaled: u128 = num;
    let mut scale: u128 = 1;
    assert(den * LEAST_FULL <= 0x100_0000_0000_0000_0000 * LEAST_FULL) by (nonlinear_arith)
        requires
            den <= 0x100_0000_0000_0000_0000,
    ;
    while scaled < den * LEAST_FULL
        invariant
            den * LEAST_FULL <= 0x100_0000_0000_0000_0000 * LEAST_FULL,
            0 < den,
            0 < num,
            scale >= 1,
            scaled == num * scale,
            scale <= scaled,
            scaled < 0x2000_0000_0000_0000_0000_0000_0000_0000,
            scale * scale_of(scaled as int, den as int) == scale_of(num as int, den as int),
        decreases 0x2000_0000_0000_0000_0000_0000_0000_0000 - scaled,
    {
        let ghost held = scale as int;
        let ghost inner = scale_of(2 * scaled, den as int);
        proof {
            assert((held * 2) * inner == held * (2 * inner)) by (nonlinear_arith);
            assert(num * (held * 2) == (num * held) * 2) by (nonlinear_arith);
        }
        scaled = scaled * 2;
        scale = scale * 2;
    }
    assert(scale * 1 == scale);
    let units: u128 = nearest(scaled, den);
    assert(units <= scaled + 1) by {
        lemma_half_even(scaled as int, den as int);
        assert(units <= scaled + 1) by (nonlinear_arith)
            requires
                2 * (units * den) <= 2 * scaled + den,
                den >= 1,
        ;
    }
    (units, scale)
}

/// Rounding to an integer takes one that is nearest, and the even one of two that are equally near.
pub proof fn law_rounding_takes_the_nearest(num: int, den: int)
    requires
        den > 0,
    ensures
        ({
            let h = half_even(num, den);
            &&& 2 * num - den <= 2 * (h * den) <= 2 * num + den
            &&& 2 * (h * den) == 2 * num + den || 2 * (h * den) == 2 * num - den ==> h % 2 == 0
        }),
{
    lemma_half_even(num, den);
    let h = half_even(num, den);
    let low = num / den;
    let rest = num % den;
    assert(num == low * den + rest && 0 <= rest < den) by (nonlinear_arith)
        requires
            den > 0,
            low == num / den,
            rest == num % den,
    ;
    assert((low + 1) * den == low * den + den) by (nonlinear_arith);
}

/// An integer is rounded to a multiple of a power of two by which it has 53 bits, or is not rounded
/// at all if it has no more.
pub proof fn law_integers_keep_53_bits(n: int)
    requires
        n >= 0,
    ensures
        n < 0x20_0000_0000_0000 ==> rounded(n) == n,
        n >= 0x20_0000_0000_0000 ==> exists|k: nat|
            {
                let place = #[trigger] pow2(k);
                &&& 0x10_0000_0000_0000 * place <= n < 0x20_0000_0000_0000 * place
                &&& rounded(n) == half_even(n, place as int) * place
            },
{
    lemma_rounded(n);
    lemma_last_place(n);
    if n >= 0x20_0000_0000_0000 {
        let k = choose|k: nat| last_place(n) == #[trigger] pow2(k);
        assert(last_place(n) > 1) by (nonlinear_arith)
            requires
                n < TOO_LONG * last_place(n),
                n >= 0x20_0000_0000_0000,
                last_place(n) >= 1,
        ;
        assert(rounded(n) == half_even(n, pow2(k) as int) * pow2(k));
    }
}

/// A fraction with fewer than 53 bits before the point is rounded to a multiple of a power of a half
/// by which it has 53 bits.
pub proof fn law_fractions_keep_53_bits(num: int, den: int)
    requires
        0 < num,
        0 < den,
        num < den * 0x10_0000_0000_0000,
    ensures
        exists|k: nat|
            {
                let scale = #[trigger] pow2(k);
                &&& den * 0x10_0000_0000_0000 <= num * scale < den * 0x20_0000_0000_0000
                &&& quotient(num, den).den == scale
                &&& quotient(num, den).num == half_even(num * scale, den)
            },
{
    lemma_scale(num, den);
    let k = choose|k: nat| scale_of(num, den) == #[trigger] pow2(k);
    assert(scale_of(num, den) > 1) by {
        if scale_of(num, den) == 1 {
            assert(num * 1 == num);
        }
    }
    assert(quotient(num, den).den == pow2(k));
}

} // verus!
