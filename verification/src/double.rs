//! Rounding to double precision, on whole numbers.
//!
//! A double holds a significand of 53 bits. The value of an arithmetic
//! operation in double precision is the representable number nearest to the
//! exact result, and of two that are equally near the one whose significand is
//! even. Only numbers well inside the exponent range of a double are met here.

use vstd::prelude::*;
use vstd::arithmetic::power2::pow2;

verus! {

/// Two to the power of 52: the least significand of a normal double.
pub const SIGNIFICAND_MIN: u128 = 0x10_0000_0000_0000;

/// Two to the power of 53: the first whole number above every significand.
pub const SIGNIFICAND_END: u128 = 0x20_0000_0000_0000;

/// The whole number nearest to `n / d`; of two equally near ones, the even one.
pub open spec fn half_even(n: nat, d: nat) -> nat
    recommends
        d > 0,
{
    let q = n / d;
    let r = n % d;
    if 2 * r < d || (2 * r == d && q % 2 == 0) {
        q
    } else {
        q + 1
    }
}

/// The double nearest to `n / d`, where `n / d` is so large that the doubles
/// around it are whole numbers, or is itself a whole number.
///
/// Doubling `d` until the quotient is below `SIGNIFICAND_END` brings it to the
/// significand; each doubling is a factor of two of the result.
pub open spec fn round_whole(n: nat, d: nat) -> nat
    decreases n - d,
{
    if d == 0 || n < SIGNIFICAND_END * d {
        half_even(n, d)
    } else {
        2 * round_whole(n, 2 * d)
    }
}

/// The double nearest to `n / d` for a quotient below `SIGNIFICAND_MIN`, as a
/// significand `m` and a scale `k`: the double is `m / 2^k`.
pub open spec fn round_fraction(n: nat, d: nat) -> (nat, nat)
    decreases SIGNIFICAND_END * d - n,
{
    if n == 0 || n >= SIGNIFICAND_MIN * d {
        (half_even(n, d), 0)
    } else {
        let (m, k) = round_fraction(2 * n, d);
        (m, k + 1)
    }
}

/// The whole part of the double nearest to `n / d`.
pub open spec fn truncated_quotient(n: nat, d: nat) -> nat {
    if n >= SIGNIFICAND_MIN * d {
        round_whole(n, d)
    } else {
        let (m, k) = round_fraction(n, d);
        m / pow2(k)
    }
}

/// Bound on the numbers that are rounded here: two to the power of 100.
pub const WIDE: u128 = 0x10_0000_0000_0000_0000_0000_0000;

/// Nearest whole number to `n / d`, ties to even.
fn nearest(n: u128, d: u128) -> (r: u128)
    requires
        0 < d <= WIDE,
        n < WIDE,
    ensures
        r == half_even(n as nat, d as nat),
        r * d <= 2 * n,
{
    let q: u128 = n / d;
    let r: u128 = n % d;
    proof {
        assert(n == q * d + r && q <= n) by (nonlinear_arith)
            requires
                d > 0,
                q == n / d,
                r == n % d,
        ;
        assert((q + 1) * d == q * d + d) by (nonlinear_arith);
    }
    if 2 * r < d || (2 * r == d && q % 2 == 0) {
        q
    } else {
        q + 1
    }
}

/// The double nearest to `n / d`, for a whole or large quotient.
pub fn rounded_whole(n: u128, d: u128) -> (r: u128)
    requires
        0 < d <= WIDE,
        n < WIDE,
    ensures
        r == round_whole(n as nat, d as nat),
        r * d <= 2 * n,
    decreases n - d,
{
    if n / SIGNIFICAND_END < d {
        nearest(n, d)
    } else {
        let half: u128 = rounded_whole(n, 2 * d);
        assert(half * (2 * d) == (2 * half) * d) by (nonlinear_arith);
        assert(2 * half <= (2 * half) * d) by (nonlinear_arith)
            requires
                d >= 1,
        ;
        2 * half
    }
}

/// The whole part of the double nearest to `n / d`.
pub fn whole_part_of_quotient(n: u128, d: u128) -> (r: u128)
    requires
        0 < d <= 0x1_0000_0000,
        n < WIDE,
    ensures
        r == truncated_quotient(n as nat, d as nat),
{
    if n >= SIGNIFICAND_MIN * d {
        return rounded_whole(n, d);
    }
    if n == 0 {
        proof {
            vstd::arithmetic::power2::lemma2_to64();
        }
        return 0;
    }
    let mut scaled: u128 = n;
    let mut scale: u128 = 1;
    let ghost mut k: nat = 0;
    proof {
        vstd::arithmetic::power2::lemma2_to64();
    }
    while scaled < SIGNIFICAND_MIN * d
        invariant
            0 < d <= 0x1_0000_0000,
            n > 0,
            scaled < SIGNIFICAND_END * d,
            scaled == n * scale,
            0 < scale <= scaled,
            scale == pow2(k),
            round_fraction(n as nat, d as nat) == (
                round_fraction(scaled as nat, d as nat).0,
                (round_fraction(scaled as nat, d as nat).1 + k) as nat,
            ),
        decreases SIGNIFICAND_END * d - scaled,
    {
        proof {
            assert(n * (2 * scale) == 2 * (n * scale)) by (nonlinear_arith);
            vstd::arithmetic::power2::lemma_pow2_unfold(k + 1);
            k = k + 1;
        }
        scaled = 2 * scaled;
        scale = 2 * scale;
    }
    nearest(scaled, d) / scale
}

/// Division by a positive number: the quotient and the remainder.
proof fn lemma_divide(n: nat, d: nat)
    requires
        d > 0,
    ensures
        n == (n / d) * d + n % d,
        n % d < d,
{
    assert(n == (n / d) * d + n % d && n % d < d) by (nonlinear_arith)
        requires
            d > 0,
    ;
}

/// Rounding to the nearest whole number stays between two whole bounds of the
/// quotient.
proof fn lemma_half_even_between(low: nat, n: nat, d: nat, high: nat)
    requires
        d > 0,
        low * d <= n <= high * d,
    ensures
        low <= half_even(n, d) <= high,
{
    lemma_divide(n, d);
    let q = n / d;
    assert(low <= q) by (nonlinear_arith)
        requires
            low * d <= n,
            n < q * d + d,
            d > 0,
    ;
    assert(q <= high && (q == high ==> n == q * d)) by (nonlinear_arith)
        requires
            q * d <= n <= high * d,
            d > 0,
    ;
}

proof fn lemma_half_even_monotone(a: nat, b: nat, d: nat)
    requires
        d > 0,
        a <= b,
    ensures
        half_even(a, d) <= half_even(b, d),
{
    lemma_divide(a, d);
    lemma_divide(b, d);
    let p = a / d;
    let q = b / d;
    assert(p <= q) by (nonlinear_arith)
        requires
            p * d <= a,
            a <= b,
            b < q * d + d,
            d > 0,
    ;
}

proof fn lemma_round_whole_at_least(n: nat, d: nat)
    requires
        d > 0,
        n >= SIGNIFICAND_MIN * d,
    ensures
        round_whole(n, d) >= SIGNIFICAND_MIN,
    decreases n - d,
{
    if n < SIGNIFICAND_END * d {
        lemma_half_even_between(SIGNIFICAND_MIN as nat, n, d, SIGNIFICAND_END as nat);
    } else {
        lemma_round_whole_at_least(n, 2 * d);
    }
}

/// Rounding a large or whole quotient keeps order.
pub proof fn lemma_round_whole_monotone(a: nat, b: nat, d: nat)
    requires
        d > 0,
        a <= b,
    ensures
        round_whole(a, d) <= round_whole(b, d),
    decreases b - d,
{
    if b < SIGNIFICAND_END * d {
        lemma_half_even_monotone(a, b, d);
    } else if a < SIGNIFICAND_END * d {
        lemma_half_even_between(0, a, d, SIGNIFICAND_END as nat);
        lemma_round_whole_at_least(b, 2 * d);
    } else {
        lemma_round_whole_monotone(a, b, 2 * d);
    }
}

/// The whole part of `round_fraction`.
spec fn fraction_whole(n: nat, d: nat) -> nat {
    round_fraction(n, d).0 / pow2(round_fraction(n, d).1)
}

/// One doubling of the dividend is one halving of the whole part.
proof fn lemma_fraction_whole_step(n: nat, d: nat)
    requires
        d > 0,
        0 < n < SIGNIFICAND_MIN * d,
    ensures
        fraction_whole(n, d) == fraction_whole(2 * n, d) / 2,
{
    let (m, k) = round_fraction(2 * n, d);
    vstd::arithmetic::power2::lemma_pow2_unfold(k + 1);
    vstd::arithmetic::power2::lemma_pow2_pos(k);
    vstd::arithmetic::div_mod::lemma_div_denominator(m as int, pow2(k) as int, 2);
    assert(pow2(k + 1) == pow2(k) * 2);
}

proof fn lemma_fraction_whole_of_normal(n: nat, d: nat)
    requires
        d > 0,
        n == 0 || n >= SIGNIFICAND_MIN * d,
    ensures
        fraction_whole(n, d) == half_even(n, d),
{
    vstd::arithmetic::power2::lemma2_to64();
    vstd::arithmetic::div_mod::lemma_div_basics(half_even(n, d) as int);
}

proof fn lemma_fraction_whole_at_most(n: nat, d: nat)
    requires
        d > 0,
        n < SIGNIFICAND_MIN * d,
    ensures
        fraction_whole(n, d) <= SIGNIFICAND_MIN,
    decreases SIGNIFICAND_END * d - n,
{
    if n == 0 {
        lemma_fraction_whole_of_normal(n, d);
        lemma_half_even_between(0, n, d, 0);
    } else {
        lemma_fraction_whole_step(n, d);
        if 2 * n < SIGNIFICAND_MIN * d {
            lemma_fraction_whole_at_most(2 * n, d);
        } else {
            lemma_fraction_whole_of_normal(2 * n, d);
            lemma_half_even_between(0, 2 * n, d, SIGNIFICAND_END as nat);
        }
    }
}

proof fn lemma_fraction_whole_monotone(a: nat, b: nat, d: nat)
    requires
        d > 0,
        a <= b < SIGNIFICAND_END * d,
    ensures
        fraction_whole(a, d) <= fraction_whole(b, d),
    decreases SIGNIFICAND_END * d - b,
{
    if a == 0 {
        lemma_fraction_whole_of_normal(a, d);
        lemma_half_even_between(0, a, d, 0);
    } else if b < SIGNIFICAND_MIN * d {
        lemma_fraction_whole_step(a, d);
        lemma_fraction_whole_step(b, d);
        lemma_fraction_whole_monotone(2 * a, 2 * b, d);
    } else {
        lemma_fraction_whole_of_normal(b, d);
        if a < SIGNIFICAND_MIN * d {
            lemma_fraction_whole_at_most(a, d);
            lemma_half_even_between(SIGNIFICAND_MIN as nat, b, d, SIGNIFICAND_END as nat);
        } else {
            lemma_fraction_whole_of_normal(a, d);
            lemma_half_even_monotone(a, b, d);
        }
    }
}

/// The whole part of a rounded quotient keeps the order of the dividends.
pub proof fn lemma_truncated_quotient_monotone(a: nat, b: nat, d: nat)
    requires
        d > 0,
        a <= b,
    ensures
        truncated_quotient(a, d) <= truncated_quotient(b, d),
{
    if a >= SIGNIFICAND_MIN * d {
        lemma_round_whole_monotone(a, b, d);
    } else if b >= SIGNIFICAND_MIN * d {
        lemma_fraction_whole_at_most(a, d);
        lemma_round_whole_at_least(b, d);
    } else {
        lemma_fraction_whole_monotone(a, b, d);
    }
}

/// Every whole number below `SIGNIFICAND_END` is a double.
pub proof fn lemma_round_whole_exact(n: nat)
    requires
        n < SIGNIFICAND_END,
    ensures
        round_whole(n, 1) == n,
{
}

/// What `round_fraction` computes, in one step.
proof fn lemma_round_fraction_closed(n: nat, d: nat)
    requires
        d > 0,
        n > 0,
    ensures
        ({
            let (m, k) = round_fraction(n, d);
            &&& m == half_even(n * pow2(k), d)
            &&& n * pow2(k) >= SIGNIFICAND_MIN * d
        }),
    decreases SIGNIFICAND_END * d - n,
{
    vstd::arithmetic::power2::lemma2_to64();
    if n < SIGNIFICAND_MIN * d {
        lemma_round_fraction_closed(2 * n, d);
        let (m, k) = round_fraction(2 * n, d);
        vstd::arithmetic::power2::lemma_pow2_unfold(k + 1);
        assert((2 * n) * pow2(k) == n * (2 * pow2(k))) by (nonlinear_arith);
    } else {
        assert(n * 1 == n);
    }
}

/// The quotient by 20 of a number below `SIGNIFICAND_END` keeps its whole part: the
/// next whole number is farther away than the rounding reaches.
pub proof fn lemma_truncated_quotient_exact(n: nat)
    requires
        n < SIGNIFICAND_END,
    ensures
        truncated_quotient(n, 20) == n / 20,
{
    if n == 0 {
        lemma_fraction_whole_of_normal(n, 20);
        assert(half_even(0, 20) == 0);
    } else {
        lemma_round_fraction_closed(n, 20);
        let (m, k) = round_fraction(n, 20);
        let p = pow2(k);
        let q = n / 20;
        assert(p > 10) by (nonlinear_arith)
            requires
                n * p >= SIGNIFICAND_MIN * 20,
                n < SIGNIFICAND_END,
                SIGNIFICAND_END == 2 * SIGNIFICAND_MIN,
        ;
        lemma_divide(n * p, 20);
        assert(20 * m <= n * p + 10);
        assert(20 * m >= n * p - 10);
        assert(20 * (q * p) <= n * p <= 20 * (q * p) + 19 * p) by (nonlinear_arith)
            requires
                20 * q <= n <= 20 * q + 19,
        ;
        assert(q * p <= m < q * p + p);
        vstd::arithmetic::div_mod::lemma_fundamental_div_mod_converse(
            m as int,
            p as int,
            q as int,
            m - q * p,
        );
    }
}

/// The distance between two numbers.
pub open spec fn distance(a: nat, b: nat) -> nat {
    if a <= b {
        (b - a) as nat
    } else {
        (a - b) as nat
    }
}

/// No whole number is nearer to the quotient than the rounded one.
proof fn lemma_half_even_nearest(n: nat, d: nat, y: nat)
    requires
        d > 0,
    ensures
        distance(n, d * half_even(n, d)) <= distance(n, d * y),
{
    lemma_divide(n, d);
    let q = n / d;
    let r = n % d;
    assert(d * q == q * d && d * (q + 1) == q * d + d) by (nonlinear_arith);
    if y <= q {
        assert(d * y <= d * q) by (nonlinear_arith)
            requires
                y <= q,
        ;
    } else {
        assert(d * y >= d * (q + 1)) by (nonlinear_arith)
            requires
                y >= q + 1,
        ;
    }
}

/// `round_whole_is_nearest` after `j` doublings of the divisor.
proof fn lemma_round_whole_nearest_from(n: nat, d: nat, j: nat, m: nat, e: nat)
    requires
        d > 0,
        n >= SIGNIFICAND_MIN * (d * pow2(j)) || j == 0,
        m <= SIGNIFICAND_END,
    ensures
        distance(n, (d * pow2(j)) * round_whole(n, d * pow2(j))) <= distance(
            n,
            d * (m * pow2(e)),
        ),
    decreases n - d * pow2(j),
{
    let scaled = d * pow2(j);
    vstd::arithmetic::power2::lemma_pow2_pos(j);
    assert(scaled > 0) by (nonlinear_arith)
        requires
            d > 0,
            pow2(j) > 0,
            scaled == d * pow2(j),
    ;
    if n < SIGNIFICAND_END * scaled {
        if e >= j {
            let rest = (e - j) as nat;
            vstd::arithmetic::power2::lemma_pow2_adds(j, rest);
            assert(d * (m * (pow2(j) * pow2(rest))) == (d * pow2(j)) * (m * pow2(rest)))
                by (nonlinear_arith);
            lemma_half_even_nearest(n, scaled, m * pow2(rest));
        } else {
            let rest = (j - 1 - e) as nat;
            vstd::arithmetic::power2::lemma_pow2_adds(e, rest);
            vstd::arithmetic::power2::lemma_pow2_unfold(j);
            vstd::arithmetic::power2::lemma_pow2_pos(rest);
            let f = pow2(e);
            let g = pow2(rest);
            assert(pow2(j) == 2 * (f * g));
            assert(d * (m * f) <= SIGNIFICAND_MIN * scaled) by (nonlinear_arith)
                requires
                    m <= 2 * SIGNIFICAND_MIN,
                    scaled == d * pow2(j),
                    pow2(j) == 2 * (f * g),
                    g >= 1,
            {
                assert(d * (m * f) <= d * (2 * SIGNIFICAND_MIN * f));
                assert(f <= f * g);
                assert(d * (2 * SIGNIFICAND_MIN * f) <= d * (2 * SIGNIFICAND_MIN * (f * g)));
                assert(
                    d * (2 * SIGNIFICAND_MIN * (f * g)) == SIGNIFICAND_MIN * (d * (2 * (f * g)))
                );
            }
            lemma_half_even_nearest(n, scaled, SIGNIFICAND_MIN as nat);
            assert(scaled * SIGNIFICAND_MIN == SIGNIFICAND_MIN * scaled) by (nonlinear_arith);
        }
    } else {
        vstd::arithmetic::power2::lemma_pow2_unfold(j + 1);
        assert(d * (2 * pow2(j)) == 2 * (d * pow2(j))) by (nonlinear_arith);
        lemma_round_whole_nearest_from(n, d, j + 1, m, e);
        let half = round_whole(n, 2 * scaled);
        assert((2 * scaled) * half == scaled * (2 * half)) by (nonlinear_arith);
    }
}

/// No whole double is nearer to `n / d` than the rounded one.
pub proof fn round_whole_is_nearest(n: nat, d: nat, m: nat, e: nat)
    requires
        d > 0,
        m <= SIGNIFICAND_END,
    ensures
        distance(n, d * round_whole(n, d)) <= distance(
            n,
            d * (m * pow2(e)),
        ),
{
    vstd::arithmetic::power2::lemma2_to64();
    assert(d * 1 == d);
    lemma_round_whole_nearest_from(n, d, 0, m, e);
}

/// Distances scale with their ends.
proof fn lemma_distance_scales(a: nat, b: nat, f: nat)
    ensures
        distance(a * f, b * f) == distance(a, b) * f,
{
    if a <= b {
        assert(a * f <= b * f && b * f - a * f == (b - a) * f) by (nonlinear_arith)
            requires
                a <= b,
        ;
    } else {
        assert(b * f <= a * f && a * f - b * f == (a - b) * f) by (nonlinear_arith)
            requires
                a >= b,
        ;
    }
}

/// No double `p / 2^h` is nearer to `n / d` than the rounded one, `m / 2^k`. Both
/// distances are multiplied by `d * 2^(h + k)`.
pub proof fn round_fraction_is_nearest(n: nat, d: nat, p: nat, h: nat)
    requires
        d > 0,
        n > 0,
        p <= SIGNIFICAND_END,
    ensures
        ({
            let (m, k) = round_fraction(n, d);
            distance(n * pow2(k), d * m) * pow2(h) <= distance(n * pow2(h), d * p) * pow2(k)
        }),
{
    lemma_round_fraction_closed(n, d);
    let (m, k) = round_fraction(n, d);
    let scaled = n * pow2(k);
    if h <= k {
        let rest = (k - h) as nat;
        let f = pow2(rest);
        vstd::arithmetic::power2::lemma_pow2_adds(h, rest);
        lemma_half_even_nearest(scaled, d, p * f);
        lemma_distance_scales(n * pow2(h), d * p, f);
        assert(n * (pow2(h) * f) == (n * pow2(h)) * f) by (nonlinear_arith);
        assert(d * (p * f) == (d * p) * f) by (nonlinear_arith);
        let near = distance(scaled, d * m);
        let far = distance(n * pow2(h), d * p);
        assert(near * pow2(h) <= far * (pow2(h) * f)) by (nonlinear_arith)
            requires
                near <= far * f,
        ;
    } else {
        let rest = (h - k) as nat;
        let f = pow2(rest);
        vstd::arithmetic::power2::lemma_pow2_adds(k, rest);
        vstd::arithmetic::power2::lemma_pow2_unfold(rest);
        vstd::arithmetic::power2::lemma_pow2_pos((rest - 1) as nat);
        lemma_half_even_nearest(scaled, d, SIGNIFICAND_MIN as nat);
        assert(n * (pow2(k) * f) == scaled * f) by (nonlinear_arith)
            requires
                scaled == n * pow2(k),
        ;
        let low = SIGNIFICAND_MIN * d;
        assert(d * SIGNIFICAND_MIN == low) by (nonlinear_arith)
            requires
                low == SIGNIFICAND_MIN * d,
        ;
        assert(d * p <= low * f) by (nonlinear_arith)
            requires
                p <= 2 * SIGNIFICAND_MIN,
                f >= 2,
                low == SIGNIFICAND_MIN * d,
        ;
        assert(low * f <= scaled * f) by (nonlinear_arith)
            requires
                low <= scaled,
        ;
        let near = distance(scaled, d * m);
        let far = distance(n * pow2(h), d * p);
        assert(near * f <= scaled * f - low * f) by (nonlinear_arith)
            requires
                near <= scaled - low,
        ;
        assert(near * (pow2(k) * f) <= far * pow2(k)) by (nonlinear_arith)
            requires
                near * f <= far,
        ;
    }
}

/// `h` is a whole number nearest to `n / d`; if another is as near, `h` is even.
pub open spec fn is_nearest_even(h: nat, n: nat, d: nat) -> bool {
    &&& 2 * distance(n, d * h) <= d
    &&& 2 * distance(n, d * h) == d ==> h % 2 == 0
}

proof fn lemma_half_even_is_nearest_even(n: nat, d: nat)
    requires
        d > 0,
    ensures
        is_nearest_even(half_even(n, d), n, d),
{
    lemma_divide(n, d);
    let q = n / d;
    assert(d * q == q * d && d * (q + 1) == q * d + d) by (nonlinear_arith);
}

/// `round_whole` after all its doublings.
proof fn lemma_round_whole_at(n: nat, d: nat, k: nat)
    requires
        d > 0,
        n < SIGNIFICAND_END * (d * pow2(k)),
        k == 0 || n >= SIGNIFICAND_MIN * (d * pow2(k)),
    ensures
        round_whole(n, d) == half_even(n, d * pow2(k)) * pow2(k),
    decreases k,
{
    vstd::arithmetic::power2::lemma2_to64();
    if k == 0 {
        assert(d * 1 == d);
    } else {
        let rest = (k - 1) as nat;
        let p = pow2(rest);
        vstd::arithmetic::power2::lemma_pow2_unfold(k);
        vstd::arithmetic::power2::lemma_pow2_pos(rest);
        assert(d * (2 * p) == (2 * d) * p) by (nonlinear_arith);
        assert(SIGNIFICAND_MIN * ((2 * d) * p) >= SIGNIFICAND_END * d) by (nonlinear_arith)
            requires
                p >= 1,
                SIGNIFICAND_END == 2 * SIGNIFICAND_MIN,
        ;
        lemma_round_whole_at(n, 2 * d, rest);
        let h = half_even(n, (2 * d) * p);
        assert(2 * (h * p) == h * (2 * p)) by (nonlinear_arith);
    }
}

/// Where the doubles around `n / d` lie two to the power of `k` apart, the rounded
/// quotient is a multiple of that, the nearest one, and of two equally near ones the
/// even multiple.
pub proof fn round_whole_is_nearest_even(n: nat, d: nat, k: nat)
    requires
        d > 0,
        n < 0x20_0000_0000_0000 * (d * pow2(k)),
        k == 0 || n >= 0x10_0000_0000_0000 * (d * pow2(k)),
    ensures
        exists|h: nat| #[trigger]
            is_nearest_even(h, n, d * pow2(k)) && round_whole(n, d) == h * pow2(k),
{
    lemma_round_whole_at(n, d, k);
    vstd::arithmetic::power2::lemma_pow2_pos(k);
    assert(d * pow2(k) > 0) by (nonlinear_arith)
        requires
            d > 0,
            pow2(k) > 0,
    ;
    lemma_half_even_is_nearest_even(n, d * pow2(k));
}

/// `round_fraction` after all its doublings.
proof fn lemma_round_fraction_at(n: nat, d: nat, k: nat)
    requires
        d > 0,
        n > 0,
        SIGNIFICAND_MIN * d <= n * pow2(k) < SIGNIFICAND_END * d,
    ensures
        round_fraction(n, d) == (half_even(n * pow2(k), d), k),
    decreases k,
{
    vstd::arithmetic::power2::lemma2_to64();
    if k == 0 {
        assert(n * 1 == n);
    } else {
        let rest = (k - 1) as nat;
        let p = pow2(rest);
        vstd::arithmetic::power2::lemma_pow2_unfold(k);
        vstd::arithmetic::power2::lemma_pow2_pos(rest);
        assert(n * (2 * p) == (2 * n) * p) by (nonlinear_arith);
        assert(2 * n <= (2 * n) * p) by (nonlinear_arith)
            requires
                p >= 1,
        ;
        lemma_round_fraction_at(2 * n, d, rest);
    }
}

/// The whole part of a quotient is that of its nearest double: where the doubles
/// around `n / d` lie a fraction of two to the power of `k` apart, the nearest
/// multiple of that fraction, and of two equally near ones the even multiple.
pub proof fn truncated_quotient_is_nearest_even(n: nat, d: nat, k: nat)
    requires
        d > 0,
        n > 0,
        0x10_0000_0000_0000 * d <= n * pow2(k) < 0x20_0000_0000_0000 * d,
    ensures
        exists|h: nat| #[trigger]
            is_nearest_even(h, n * pow2(k), d) && truncated_quotient(n, d) == h / pow2(k),
{
    let h = half_even(n * pow2(k), d);
    lemma_half_even_is_nearest_even(n * pow2(k), d);
    vstd::arithmetic::power2::lemma2_to64();
    if n >= SIGNIFICAND_MIN * d {
        if k > 0 {
            vstd::arithmetic::power2::lemma_pow2_unfold(k);
            vstd::arithmetic::power2::lemma_pow2_pos((k - 1) as nat);
            assert(n * pow2(k) >= 2 * n) by (nonlinear_arith)
                requires
                    pow2(k) >= 2,
            ;
            assert(false);
        }
        assert(n * 1 == n);
        vstd::arithmetic::div_mod::lemma_div_basics(h as int);
    } else {
        lemma_round_fraction_at(n, d, k);
    }
}

/// A quotient whose doubles are whole numbers is rounded to one of them.
pub proof fn large_quotients_are_rounded_whole(n: nat, d: nat)
    requires
        n >= 0x10_0000_0000_0000 * d,
    ensures
        truncated_quotient(n, d) == round_whole(n, d),
{
}

/// Rounding changes a number by no more than one part in two to the power of 53.
proof fn lemma_round_whole_error(n: nat, d: nat)
    requires
        d > 0,
        n >= SIGNIFICAND_MIN * d,
    ensures
        SIGNIFICAND_END * distance(n, d * round_whole(n, d)) <= n,
    decreases n - d,
{
    if n < SIGNIFICAND_END * d {
        lemma_half_even_is_nearest_even(n, d);
    } else {
        lemma_round_whole_error(n, 2 * d);
        let half = round_whole(n, 2 * d);
        assert((2 * d) * half == d * (2 * half)) by (nonlinear_arith);
    }
}

/// Rounding a whole number changes it by no more than one part in two to the power
/// of 53.
pub proof fn rounding_changes_little(n: nat)
    ensures
        0x20_0000_0000_0000 * distance(n, round_whole(n, 1)) <= n,
{
    if n >= SIGNIFICAND_MIN {
        lemma_round_whole_error(n, 1);
    }
}

/// The whole part of a rounded quotient is that of the quotient itself, but for one
/// part in two to the power of 53.
pub proof fn truncation_changes_little(n: nat, d: nat)
    requires
        d > 0,
    ensures
        0x20_0000_0000_0000 * (d * truncated_quotient(n, d)) <= 0x20_0000_0000_0001 * n,
        0x20_0000_0000_0000 * (d * (truncated_quotient(n, d) + 1)) >= 0x1f_ffff_ffff_ffff * n,
{
    let t = truncated_quotient(n, d);
    assert(d * (t + 1) == d * t + d) by (nonlinear_arith);
    if n >= SIGNIFICAND_MIN * d {
        lemma_round_whole_error(n, d);
    } else if n == 0 {
        lemma_fraction_whole_of_normal(n, d);
        lemma_half_even_between(0, n, d, 0);
        assert(t == 0);
        assert(d * t == 0) by (nonlinear_arith)
            requires
                t == 0,
        ;
    } else {
        lemma_round_fraction_closed(n, d);
        let (m, k) = round_fraction(n, d);
        let p = pow2(k);
        vstd::arithmetic::power2::lemma_pow2_pos(k);
        lemma_half_even_is_nearest_even(n * p, d);
        lemma_divide(m, p);
        assert(t == m / p);
        assert(d * (t * p) <= d * m <= d * ((t + 1) * p)) by (nonlinear_arith)
            requires
                t * p <= m <= t * p + p,
        ;
        let up = 0x20_0000_0000_0001 * n - 0x20_0000_0000_0000 * (d * t);
        assert(up * p == 0x20_0000_0000_0001 * (n * p) - 0x20_0000_0000_0000 * (d * (t * p)))
            by (nonlinear_arith)
            requires
                up == 0x20_0000_0000_0001 * n - 0x20_0000_0000_0000 * (d * t),
        ;
        let down = 0x20_0000_0000_0000 * (d * (t + 1)) - 0x1f_ffff_ffff_ffff * n;
        assert(down * p == 0x20_0000_0000_0000 * (d * ((t + 1) * p)) - 0x1f_ffff_ffff_ffff * (n
            * p)) by (nonlinear_arith)
            requires
                down == 0x20_0000_0000_0000 * (d * (t + 1)) - 0x1f_ffff_ffff_ffff * n,
        ;
        assert(up * p >= 0);
        assert(down * p >= 0);
        assert(up >= 0 && down >= 0) by (nonlinear_arith)
            requires
                up * p >= 0,
                down * p >= 0,
                p > 0,
        ;
    }
}

} // verus!
