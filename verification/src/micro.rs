//! Fixed-point arithmetic in millionths.

use vstd::prelude::*;

verus! {

/// The value 1.0 in millionths.
pub const ONE: i64 = 1_000_000;

/// `v` limited to the closed range from `lo` to `hi`.
pub open spec fn clamp_int(v: int, lo: int, hi: int) -> int {
    if v < lo {
        lo
    } else if v > hi {
        hi
    } else {
        v
    }
}

/// `v` limited to the unit range, 0 to `ONE`.
pub open spec fn unit(v: int) -> int {
    clamp_int(v, 0, ONE as int)
}

/// `v` limited to what a 64-bit signed integer holds.
pub open spec fn saturate(v: int) -> int {
    clamp_int(v, i64::MIN as int, i64::MAX as int)
}

/// The integer nearest to `n / d` for a positive `d`, a tie going away from zero.
pub open spec fn round_div(n: int, d: int) -> int {
    if n >= 0 {
        if 2 * (n % d) >= d {
            n / d + 1
        } else {
            n / d
        }
    } else {
        if 2 * ((-n) % d) >= d {
            -((-n) / d) - 1
        } else {
            -((-n) / d)
        }
    }
}

/// Limits a value to the closed range from `lo` to `hi`.
pub fn clamp(v: i64, lo: i64, hi: i64) -> (r: i64)
    requires
        lo <= hi,
    ensures
        r == clamp_int(v as int, lo as int, hi as int),
{
    if v < lo {
        lo
    } else if v > hi {
        hi
    } else {
        v
    }
}

/// Limits a wide intermediate value to a range of 64-bit values.
pub fn clamp_wide(v: i128, lo: i64, hi: i64) -> (r: i64)
    requires
        lo <= hi,
    ensures
        r == clamp_int(v as int, lo as int, hi as int),
{
    if v < lo as i128 {
        lo
    } else if v > hi as i128 {
        hi
    } else {
        v as i64
    }
}

/// Divides and rounds to the nearest integer, a tie going away from zero.
pub fn div_round(n: i128, d: i128) -> (r: i128)
    requires
        d > 0,
        n > i128::MIN,
    ensures
        r == round_div(n as int, d as int),
{
    if n >= 0 {
        let q: i128 = n / d;
        let m: i128 = n % d;
        if m >= d - m {
            assert(2 * q <= n) by (nonlinear_arith)
                requires
                    d >= 2,
                    n >= 0,
                    q == n / d,
            ;
            q + 1
        } else {
            q
        }
    } else {
        let p: i128 = -n;
        let q: i128 = p / d;
        let m: i128 = p % d;
        if m >= d - m {
            assert(2 * q <= p) by (nonlinear_arith)
                requires
                    d >= 2,
                    p >= 0,
                    q == p / d,
            ;
            -q - 1
        } else {
            -q
        }
    }
}

/// The exact product of two 64-bit values.
pub fn mul_wide(a: i64, b: i64) -> (p: i128)
    ensures
        p == a * b,
        -0x4000_0000_0000_0000_0000_0000_0000_0000 <= p <= 0x4000_0000_0000_0000_0000_0000_0000_0000,
{
    assert(-0x4000_0000_0000_0000_0000_0000_0000_0000 <= a * b
        <= 0x4000_0000_0000_0000_0000_0000_0000_0000) by (nonlinear_arith)
        requires
            -0x8000_0000_0000_0000 <= a <= 0x8000_0000_0000_0000,
            -0x8000_0000_0000_0000 <= b <= 0x8000_0000_0000_0000,
    ;
    (a as i128) * (b as i128)
}

/// The exact product of a 64-bit value and a value of at most `ONE` in size.
pub fn mul_by_fraction(a: i64, f: i64) -> (p: i128)
    requires
        -ONE <= f <= ONE,
    ensures
        p == a * f,
        -0x8000_0000_0000_0000 * 1_000_000 <= p <= 0x8000_0000_0000_0000 * 1_000_000,
{
    assert(-0x8000_0000_0000_0000 * 1_000_000 <= a * f <= 0x8000_0000_0000_0000 * 1_000_000)
        by (nonlinear_arith)
        requires
            -0x8000_0000_0000_0000 <= a <= 0x8000_0000_0000_0000,
            -1_000_000 <= f <= 1_000_000,
    ;
    (a as i128) * (f as i128)
}

/// Adds two 64-bit values, stopping at the ends of the 64-bit range.
pub fn add_saturating(a: i64, b: i64) -> (r: i64)
    ensures
        r == saturate(a + b),
{
    clamp_wide(a as i128 + b as i128, i64::MIN, i64::MAX)
}

/// The size of the quotient of a rounding division is at most the size of the numerator.
pub proof fn lemma_round_div_bounds(n: int, d: int)
    requires
        d > 0,
    ensures
        n >= 0 ==> 0 <= round_div(n, d) <= n,
        n <= 0 ==> n <= round_div(n, d) <= 0,
{
    let m = if n >= 0 {
        n
    } else {
        -n
    };
    assert(0 <= m / d && (2 * (m % d) >= d ==> m / d + 1 <= m)) by (nonlinear_arith)
        requires
            m >= 0,
            d > 0,
    {
        assert(m == d * (m / d) + m % d);
        assert(0 <= m % d < d);
    }
    assert(m / d <= m) by (nonlinear_arith)
        requires
            m >= 0,
            d > 0,
    {
        assert(m == d * (m / d) + m % d);
        assert(0 <= m % d < d);
    }
}

/// Twice a number that is not negative lies less than `d` from twice its
/// rounded quotient times `d`, the lower end included.
pub proof fn lemma_round_div_nearest(n: int, d: int)
    requires
        n >= 0,
        d > 0,
    ensures
        (2 * round_div(n, d) - 1) * d <= 2 * n < (2 * round_div(n, d) + 1) * d,
{
    let q = n / d;
    let m = n % d;
    assert(n == d * q + m && 0 <= m < d) by (nonlinear_arith)
        requires
            n >= 0,
            d > 0,
            q == n / d,
            m == n % d,
    ;
    if 2 * m >= d {
        assert((2 * (q + 1) - 1) * d <= 2 * n < (2 * (q + 1) + 1) * d) by (nonlinear_arith)
            requires
                n == d * q + m,
                0 <= m < d,
                2 * m >= d,
        ;
    } else {
        assert((2 * q - 1) * d <= 2 * n < (2 * q + 1) * d) by (nonlinear_arith)
            requires
                n == d * q + m,
                0 <= m < d,
                2 * m < d,
        ;
    }
}

/// Rounding division keeps the order of its numerators.
pub proof fn lemma_round_div_monotone(a: int, b: int, d: int)
    requires
        d > 0,
        a <= b,
    ensures
        round_div(a, d) <= round_div(b, d),
{
    lemma_round_div_bounds(a, d);
    lemma_round_div_bounds(b, d);
    if a >= 0 {
        lemma_round_div_nearest(a, d);
        lemma_round_div_nearest(b, d);
        let ra = round_div(a, d);
        let rb = round_div(b, d);
        assert(ra <= rb) by (nonlinear_arith)
            requires
                d > 0,
                a <= b,
                (2 * ra - 1) * d <= 2 * a,
                2 * b < (2 * rb + 1) * d,
        ;
    } else if b < 0 {
        lemma_round_div_nearest(-a, d);
        lemma_round_div_nearest(-b, d);
        let ra = round_div(-a, d);
        let rb = round_div(-b, d);
        assert(rb <= ra) by (nonlinear_arith)
            requires
                d > 0,
                -b <= -a,
                (2 * rb - 1) * d <= 2 * (-b),
                2 * (-a) < (2 * ra + 1) * d,
        ;
    }
}

/// A multiple of `d` divides without rounding.
pub proof fn lemma_round_div_exact(k: int, d: int)
    requires
        d > 0,
    ensures
        round_div(k * d, d) == k,
{
    let m = if k >= 0 {
        k
    } else {
        -k
    };
    assert((m * d) / d == m && (m * d) % d == 0) by (nonlinear_arith)
        requires
            d > 0,
            m >= 0,
    ;
    assert(m * d >= 0) by (nonlinear_arith)
        requires
            d > 0,
            m >= 0,
    ;
    if k >= 0 {
        assert(k * d == m * d);
    } else {
        assert(-(k * d) == m * d) by (nonlinear_arith)
            requires
                m == -k,
        ;
        if k * d == 0 {
            assert(m * d == 0);
            assert(m == 0) by (nonlinear_arith)
                requires
                    m * d == 0,
                    d > 0,
                    m >= 0,
            ;
        }
    }
}

} // verus!
