//! Fixed-point arithmetic: the scale, quotients rounded towards zero or to
//! a chosen side, saturation into `i32`, and the integer square root.

use vstd::prelude::*;

verus! {

/// Number of fixed-point steps in one surface unit.
pub const UNIT: i32 = 1000;

/// Largest magnitude accepted for the first factor of [`mul_quot`].
pub const WIDE: i128 = 0x40_0000_0000_0000_0000;

/// Largest magnitude accepted for the second factor of [`mul_quot`].
pub const NARROW: i128 = 0x4_0000_0000;

/// Largest magnitude of a quotient that [`mul_quot`] returns: the product of
/// `WIDE` and `NARROW`.
pub const HUGE: i128 = 0x100_0000_0000_0000_0000_0000_0000;

/// Parts of a step in which a length is taken where a direction is read
/// off it, so that the direction is true to a small part of a step.
pub const FINE: i128 = 0x1_0000;

/// Absolute value.
pub open spec fn magnitude(v: int) -> int {
    if v < 0 {
        -v
    } else {
        v
    }
}

/// Quotient of `a` by a positive `d`, rounded towards zero.
pub open spec fn quot(a: int, d: int) -> int {
    if a >= 0 {
        a / d
    } else {
        -((-a) / d)
    }
}

/// Quotient of `a` by a positive `d`, rounded to the side that `side` points
/// to: up where `side` is positive, down where it is negative, and towards
/// zero where it is zero.
pub open spec fn quot_towards(a: int, d: int, side: int) -> int {
    if side > 0 {
        -((-a) / d)
    } else if side < 0 {
        a / d
    } else {
        quot(a, d)
    }
}

/// The value of `i32` nearest to `v`.
pub open spec fn saturate(v: int) -> i32 {
    if v < i32::MIN {
        i32::MIN
    } else if v > i32::MAX {
        i32::MAX
    } else {
        v as i32
    }
}

/// `v` is a value of `i32`.
pub open spec fn fits(v: int) -> bool {
    i32::MIN <= v <= i32::MAX
}

/// `x` confined to `lo ..= hi`; where the bounds cross, `lo` wins.
pub open spec fn clamp_spec(x: int, lo: int, hi: int) -> int {
    let capped = if x < hi { x } else { hi };
    if lo > capped {
        lo
    } else {
        capped
    }
}

/// `r` is the integer part of the square root of `n`.
pub open spec fn is_sqrt_floor(n: int, r: int) -> bool {
    0 <= r && r * r <= n < (r + 1) * (r + 1)
}

/// Integer part of the square root of a non-negative `n`.
pub open spec fn sqrt_floor(n: int) -> int {
    choose|r: int| is_sqrt_floor(n, r)
}

/// Length of a vector whose squared length is `d2`, in `FINE`-ths of a step
/// and rounded down.
pub open spec fn fine_length(d2: int) -> int {
    sqrt_floor(d2 * FINE * FINE)
}

/// At most one number is the integer square root of `n`.
pub proof fn lemma_sqrt_floor_unique(n: int, r1: int, r2: int)
    requires
        is_sqrt_floor(n, r1),
        is_sqrt_floor(n, r2),
    ensures
        r1 == r2,
{
    if r1 < r2 {
        assert((r1 + 1) * (r1 + 1) <= r2 * r2) by (nonlinear_arith)
            requires
                0 <= r1,
                r1 + 1 <= r2,
        ;
    } else if r2 < r1 {
        assert((r2 + 1) * (r2 + 1) <= r1 * r1) by (nonlinear_arith)
            requires
                0 <= r2,
                r2 + 1 <= r1,
        ;
    }
}

/// A number that squares to at most `n`, while its successor squares to more,
/// is `sqrt_floor(n)`.
pub proof fn lemma_sqrt_floor_is(n: int, r: int)
    requires
        is_sqrt_floor(n, r),
    ensures
        sqrt_floor(n) == r,
{
    lemma_sqrt_floor_unique(n, r, sqrt_floor(n));
}

/// A truncating quotient is no larger in magnitude than its dividend, and
/// has its sign.
pub proof fn lemma_quot_bounds(a: int, d: int)
    requires
        d > 0,
    ensures
        magnitude(quot(a, d)) <= magnitude(a),
        a >= 0 ==> quot(a, d) >= 0,
        a <= 0 ==> quot(a, d) <= 0,
        quot(-a, d) == -quot(a, d),
{
    let m = magnitude(a);
    assert(0 <= m / d <= m) by (nonlinear_arith)
        requires
            m >= 0,
            d > 0,
    ;
}

/// A truncating quotient, multiplied back, misses its dividend by less than
/// the divisor, and lies on the side of zero.
pub proof fn lemma_quot_residue(a: int, d: int)
    requires
        d > 0,
    ensures
        a >= 0 ==> quot(a, d) * d <= a < quot(a, d) * d + d,
        a <= 0 ==> quot(a, d) * d - d < a <= quot(a, d) * d,
{
    let p = magnitude(a);
    assert((p / d) * d <= p < (p / d) * d + d) by (nonlinear_arith)
        requires
            p >= 0,
            d > 0,
    ;
    if a < 0 {
        assert((-(p / d)) * d == -((p / d) * d)) by (nonlinear_arith);
    }
}

/// A quotient rounded to a side, multiplied back, misses its dividend by
/// less than the divisor, on that side.
pub proof fn lemma_quot_towards(a: int, d: int, side: int)
    requires
        d > 0,
    ensures
        side > 0 ==> a <= quot_towards(a, d, side) * d < a + d,
        side < 0 ==> a - d < quot_towards(a, d, side) * d <= a,
        side == 0 ==> quot_towards(a, d, side) == quot(a, d),
{
    let n = -a;
    assert((n / d) * d <= n < (n / d) * d + d) by (nonlinear_arith)
        requires
            d > 0,
    ;
    assert((a / d) * d <= a < (a / d) * d + d) by (nonlinear_arith)
        requires
            d > 0,
    ;
    assert((-(n / d)) * d == -((n / d) * d)) by (nonlinear_arith);
}

/// A number that, multiplied by the divisor, misses the dividend by less
/// than the divisor, on the side asked for, is the quotient rounded to that
/// side.
pub proof fn lemma_quot_towards_is(a: int, d: int, side: int, q: int)
    requires
        d > 0,
        side > 0 ==> a <= q * d < a + d,
        side < 0 ==> a - d < q * d <= a,
        side == 0 ==> q == quot(a, d),
    ensures
        quot_towards(a, d, side) == q,
{
    lemma_quot_towards(a, d, side);
    let r = quot_towards(a, d, side);
    if r < q {
        assert(r * d + d <= q * d) by (nonlinear_arith)
            requires
                r + 1 <= q,
                d > 0,
        ;
    } else if q < r {
        assert(q * d + d <= r * d) by (nonlinear_arith)
            requires
                q + 1 <= r,
                d > 0,
        ;
    }
}

/// A quotient rounded to the side of `m` and multiplied by `m` is no less,
/// once scaled by the divisor, than the dividend multiplied by `m`; rounded
/// to the other side it is no more.
pub proof fn lemma_quot_towards_times(a: int, d: int, m: int)
    requires
        d > 0,
    ensures
        d * (quot_towards(a, d, m) * m) >= a * m,
        d * (quot_towards(a, d, -m) * m) <= a * m,
{
    lemma_quot_towards(a, d, m);
    lemma_quot_towards(a, d, -m);
    let up = quot_towards(a, d, m);
    let down = quot_towards(a, d, -m);
    if m == 0 {
        assert(d * (up * m) == 0 && d * (down * m) == 0 && a * m == 0) by (nonlinear_arith)
            requires
                m == 0,
        ;
    } else {
        assert(d * (up * m) >= a * m) by (nonlinear_arith)
            requires
                m > 0 ==> up * d >= a,
                m < 0 ==> up * d <= a,
                m != 0,
        ;
        assert(d * (down * m) <= a * m) by (nonlinear_arith)
            requires
                m > 0 ==> down * d <= a,
                m < 0 ==> down * d >= a,
                m != 0,
        ;
    }
}

/// What truncation costs a quotient that is multiplied by `m` afterwards:
/// less than `m` in magnitude, once both sides are scaled by the divisor.
pub proof fn lemma_quot_times(a: int, d: int, m: int)
    requires
        d > 0,
    ensures
        d * (quot(a, d) * m) >= a * m - (d - 1) * magnitude(m),
        d * (quot(a, d) * m) <= a * m + (d - 1) * magnitude(m),
{
    lemma_quot_residue(a, d);
    let q = quot(a, d);
    let e = a - q * d;
    let p = magnitude(m);
    assert(d * (q * m) == a * m - e * m) by (nonlinear_arith)
        requires
            e == a - q * d,
    ;
    assert(-((d - 1) * p) <= e * m <= (d - 1) * p) by (nonlinear_arith)
        requires
            -(d - 1) <= e <= d - 1,
            -p <= m <= p,
            p >= 0,
            d > 0,
    ;
}

/// Every natural number has an integer square root.
pub proof fn lemma_sqrt_floor_exists(n: nat)
    ensures
        is_sqrt_floor(n as int, sqrt_floor(n as int)),
    decreases n,
{
    if n == 0 {
        assert(is_sqrt_floor(0, 0));
    } else {
        lemma_sqrt_floor_exists((n - 1) as nat);
        let r = sqrt_floor(n - 1);
        if (r + 1) * (r + 1) <= n {
            assert((r + 2) * (r + 2) > n) by (nonlinear_arith)
                requires
                    r >= 0,
                    n - 1 < (r + 1) * (r + 1),
            ;
            assert(is_sqrt_floor(n as int, r + 1));
        } else {
            assert(is_sqrt_floor(n as int, r));
        }
    }
}

/// A number whose square is at most `n` is at most the integer square root
/// of `n`.
pub proof fn lemma_sqrt_floor_at_least(n: int, m: int)
    requires
        0 <= m,
        m * m <= n,
    ensures
        sqrt_floor(n) >= m,
{
    assert(n >= 0) by (nonlinear_arith)
        requires
            m * m <= n,
    ;
    lemma_sqrt_floor_exists(n as nat);
    let r = sqrt_floor(n);
    if r < m {
        assert((r + 1) * (r + 1) <= m * m) by (nonlinear_arith)
            requires
                0 <= r,
                r + 1 <= m,
        ;
    }
}

/// The fine length of a vector that is not null is a square root rounded
/// down, and no less than `FINE`.
pub proof fn lemma_fine_length(d2: int)
    requires
        d2 > 0,
    ensures
        is_sqrt_floor(d2 * FINE * FINE, fine_length(d2)),
        fine_length(d2) >= FINE,
{
    let n = d2 * FINE * FINE;
    lemma_sqrt_floor_exists(n as nat);
    let r = fine_length(d2);
    if r < FINE {
        assert((r + 1) * (r + 1) <= FINE * FINE) by (nonlinear_arith)
            requires
                0 <= r,
                r + 1 <= FINE,
        ;
    }
}

/// A number no larger in magnitude than `m`, scaled by `s / m`, is no larger
/// in magnitude than `s`.
pub proof fn lemma_quot_scaled(a: int, s: int, m: int)
    requires
        m > 0,
        s >= 0,
        magnitude(a) <= m,
    ensures
        magnitude(quot(a * s, m)) <= s,
{
    let p = magnitude(a);
    assert(0 <= (p * s) / m <= s) by (nonlinear_arith)
        requires
            0 <= p <= m,
            m > 0,
            s >= 0,
    ;
    assert(a * s == p * s || a * s == -(p * s)) by (nonlinear_arith)
        requires
            p == a || p == -a,
    ;
    assert(p * s >= 0) by (nonlinear_arith)
        requires
            p >= 0,
            s >= 0,
    ;
}

/// The product of two bounded numbers is bounded by the product of the
/// bounds.
pub proof fn lemma_product_bound(a: int, b: int, ma: int, mb: int)
    requires
        magnitude(a) <= ma,
        magnitude(b) <= mb,
    ensures
        magnitude(a * b) <= ma * mb,
{
    assert(magnitude(a * b) <= ma * mb) by (nonlinear_arith)
        requires
            -ma <= a <= ma,
            -mb <= b <= mb,
            magnitude(a * b) == if a * b < 0 { -(a * b) } else { a * b },
    ;
}

/// `v`, or the nearest `i32` where `v` is out of range.
pub fn narrow(v: i128) -> (r: i32)
    ensures
        r == saturate(v as int),
{
    if v < -0x8000_0000 {
        i32::MIN
    } else if v > 0x7fff_ffff {
        i32::MAX
    } else {
        v as i32
    }
}

/// `x` confined to `lo ..= hi`.
pub fn clamp(x: i32, lo: i32, hi: i32) -> (r: i32)
    ensures
        r == clamp_spec(x as int, lo as int, hi as int),
{
    let capped = if x < hi { x } else { hi };
    if lo > capped {
        lo
    } else {
        capped
    }
}

/// `a * b / d`, with a product that cannot overflow and a quotient rounded
/// towards zero.
pub fn mul_quot(a: i128, b: i128, d: i128) -> (q: i128)
    requires
        magnitude(a as int) <= WIDE,
        magnitude(b as int) <= NARROW,
        d > 0,
    ensures
        q == quot(a * b, d as int),
        magnitude(q as int) <= HUGE,
{
    proof {
        lemma_product_bound(a as int, b as int, WIDE as int, NARROW as int);
        lemma_quot_bounds(a * b, d as int);
        assert(WIDE * NARROW == HUGE) by (nonlinear_arith);
    }
    (a * b) / d
}

/// `p / d`, rounded to the side that `side` points to.
pub fn quot_to(p: i128, d: i128, side: i128) -> (q: i128)
    requires
        magnitude(p as int) <= 2048 * HUGE,
        d > 0,
    ensures
        q == quot_towards(p as int, d as int, side as int),
        magnitude(q as int) <= magnitude(p as int),
{
    let t = p / d;
    proof {
        lemma_quot_residue(p as int, d as int);
        lemma_quot_bounds(p as int, d as int);
        assert(magnitude(t * d) <= magnitude(p as int)) by (nonlinear_arith)
            requires
                d > 0,
                p >= 0 ==> t >= 0 && t * d <= p,
                p <= 0 ==> t <= 0 && p <= t * d,
                magnitude(t * d) == if t * d < 0 { -(t * d) } else { t * d },
                magnitude(p as int) == if p < 0 { -p } else { p as int },
        ;
    }
    let back = t * d;
    let q = if side > 0 && back < p {
        t + 1
    } else if side < 0 && back > p {
        t - 1
    } else {
        t
    };
    proof {
        assert(q * d == t * d + (q - t) * d) by (nonlinear_arith);
        assert((q - t) * d == if q == t + 1 { d as int } else if q == t - 1 { -d } else { 0 })
            by (nonlinear_arith)
            requires
                q == t + 1 || q == t - 1 || q == t,
        ;
        lemma_quot_towards_is(p as int, d as int, side as int, q as int);
        assert(magnitude(q as int) <= magnitude(p as int)) by (nonlinear_arith)
            requires
                d >= 1,
                magnitude(t as int) <= magnitude(p as int),
                q == t || (q == t + 1 && t >= 0 && t * d < p) || (q == t - 1 && t <= 0 && t * d > p),
                magnitude(q as int) == if q < 0 { -q } else { q as int },
                magnitude(p as int) == if p < 0 { -p } else { p as int },
                magnitude(t as int) == if t < 0 { -t } else { t as int },
        ;
    }
    q
}

/// `a * b / d`, with a product that cannot overflow and a quotient rounded
/// to the side that `side` points to.
pub fn mul_quot_towards(a: i128, b: i128, d: i128, side: i128) -> (q: i128)
    requires
        magnitude(a as int) <= WIDE,
        magnitude(b as int) <= NARROW,
        d > 0,
    ensures
        q == quot_towards(a * b, d as int, side as int),
        magnitude(q as int) <= HUGE,
{
    proof {
        lemma_product_bound(a as int, b as int, WIDE as int, NARROW as int);
        assert(WIDE * NARROW == HUGE) by (nonlinear_arith);
    }
    quot_to(a * b, d, side)
}

/// `v * num / den` for a small share `num / den`, with a quotient rounded
/// to the side that `side` points to.
pub fn share_towards(v: i128, num: i32, den: i32, side: i128) -> (q: i128)
    requires
        magnitude(v as int) <= 2 * HUGE,
        0 <= num <= 1000,
        den > 0,
    ensures
        q == quot_towards(v * num, den as int, side as int),
        magnitude(q as int) <= magnitude(v * num),
{
    proof {
        lemma_product_bound(v as int, num as int, 2 * HUGE, 1000);
    }
    quot_to(v * (num as i128), den as i128, side)
}

/// `v * num / den` for a small share `num / den`, with a quotient rounded
/// towards zero.
pub fn share(v: i128, num: i32, den: i32) -> (q: i128)
    requires
        magnitude(v as int) <= 2 * HUGE,
        0 <= num <= 1000,
        den > 0,
    ensures
        q == quot(v * num, den as int),
        magnitude(q as int) <= magnitude(v * num),
{
    proof {
        lemma_product_bound(v as int, num as int, 2 * HUGE, 1000);
        lemma_quot_bounds(v * num, den as int);
    }
    (v * (num as i128)) / (den as i128)
}

/// Inner product of two vectors with bounded coordinates.
pub fn dot(ax: i128, ay: i128, bx: i128, by: i128) -> (k: i128)
    requires
        magnitude(ax as int) <= NARROW,
        magnitude(ay as int) <= NARROW,
        magnitude(bx as int) <= NARROW,
        magnitude(by as int) <= NARROW,
    ensures
        k == ax * bx + ay * by,
        2 * magnitude(k as int) <= WIDE,
{
    proof {
        lemma_product_bound(ax as int, bx as int, NARROW as int, NARROW as int);
        lemma_product_bound(ay as int, by as int, NARROW as int, NARROW as int);
    }
    ax * bx + ay * by
}

/// Length of a vector whose squared length is `d2`, in `FINE`-ths of a
/// step and rounded down.
pub fn fine_len(d2: i128) -> (len: i128)
    requires
        0 <= d2,
        2 * d2 <= WIDE,
    ensures
        len == fine_length(d2 as int),
        0 <= len <= 0x8_0000_0000_0000,
        d2 > 0 ==> len >= FINE,
{
    let n: u128 = (d2 as u128) * 0x1_0000_0000;
    let r = isqrt(n);
    proof {
        assert(d2 * FINE * FINE == n);
        assert(r <= 0x8_0000_0000_0000) by (nonlinear_arith)
            requires
                r * r <= n,
                n <= 0x20_0000_0000_0000_0000_0000_0000,
        ;
        if d2 > 0 {
            lemma_fine_length(d2 as int);
        }
    }
    r as i128
}

/// Integer part of the square root of `n`.
pub fn isqrt(n: u128) -> (r: u64)
    ensures
        is_sqrt_floor(n as int, r as int),
        r == sqrt_floor(n as int),
{
    let mut lo: u128 = 0;
    let mut hi: u128 = 0x1_0000_0000_0000_0000;
    while hi - lo > 1
        invariant
            lo < hi <= 0x1_0000_0000_0000_0000,
            lo * lo <= n < hi * hi,
        decreases hi - lo,
    {
        let mid: u128 = lo + (hi - lo) / 2;
        assert(mid * mid <= 0xffff_ffff_ffff_ffff * 0xffff_ffff_ffff_ffff) by (nonlinear_arith)
            requires
                0 <= mid <= 0xffff_ffff_ffff_ffff,
        ;
        if mid * mid <= n {
            lo = mid;
        } else {
            hi = mid;
        }
    }
    proof {
        lemma_sqrt_floor_is(n as int, lo as int);
    }
    lo as u64
}

} // verus!
