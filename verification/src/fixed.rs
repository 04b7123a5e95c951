//! Fixed-point arithmetic on milli-units: clamping, truncating division,
//! integer square roots and distances, and polynomial approximations of
//! sine, cosine and the hyperbolic tangent.

use vstd::prelude::*;

verus! {

use vstd::arithmetic::div_mod::{
    lemma_div_pos_is_pos,
    lemma_fundamental_div_mod,
    lemma_fundamental_div_mod_converse,
    lemma_multiply_divide_le,
    lemma_multiply_divide_lt,
};
use crate::constants::{SCALE, PI_MILLI, TWO_PI_MILLI, HALF_PI_MILLI};

/// `v` forced into `[lo, hi]`.
pub open spec fn clamp_spec(v: int, lo: int, hi: int) -> int {
    if v < lo {
        lo
    } else if v > hi {
        hi
    } else {
        v
    }
}

pub fn clamp_i64(v: i64, lo: i64, hi: i64) -> (r: i64)
    requires
        lo <= hi,
    ensures
        r == clamp_spec(v as int, lo as int, hi as int),
{
    if v < lo {
        lo
    } else if v > hi {
        hi
    } else {
        v
    }
}

/// Division truncating toward zero, as the world's fixed-point scaling
/// uses it; defined for positive divisors.
pub open spec fn sdiv_spec(a: int, b: int) -> int {
    if a >= 0 {
        a / b
    } else {
        -((-a) / b)
    }
}

pub fn sdiv(a: i64, b: i64) -> (r: i64)
    requires
        1 <= b,
        i64::MIN < a,
    ensures
        r == sdiv_spec(a as int, b as int),
        a >= 0 ==> 0 <= r <= a,
        a <= 0 ==> a <= r <= 0,
{
    if a >= 0 {
        a / b
    } else {
        -((-a) / b)
    }
}

/// Truncating division shrinks a symmetric bound: |a| <= m * b implies
/// |a / b| <= m.
pub proof fn lemma_sdiv_bound(a: int, b: int, m: int)
    requires
        1 <= b,
        0 <= m,
        -(m * b) <= a <= m * b,
    ensures
        -m <= sdiv_spec(a, b) <= m,
{
    if a >= 0 {
        assert(a / b <= m) by (nonlinear_arith)
            requires
                1 <= b,
                0 <= m,
                0 <= a <= m * b,
        ;
        assert(a / b >= 0) by (nonlinear_arith)
            requires
                1 <= b,
                0 <= a,
        ;
    } else {
        assert((-a) / b <= m) by (nonlinear_arith)
            requires
                1 <= b,
                0 <= m,
                0 <= -a <= m * b,
        ;
        assert((-a) / b >= 0) by (nonlinear_arith)
            requires
                1 <= b,
                0 <= -a,
        ;
    }
}

/// Division rounding toward negative infinity, as bucket coordinates of
/// a grid use it; for a positive divisor it equals Verus's mathematical
/// (Euclidean) division.
pub fn floor_div(a: i64, b: i64) -> (q: i64)
    requires
        1 <= b,
        -4_000_000_000_000_000_000 <= a <= 4_000_000_000_000_000_000,
    ensures
        q == (a as int) / (b as int),
        a >= 0 ==> 0 <= q <= a,
        a < 0 ==> a <= q <= 0,
{
    if a >= 0 {
        a / b
    } else {
        let t = (-a) / b;
        let rem = (-a) % b;
        proof {
            lemma_fundamental_div_mod(-(a as int), b as int);
            assert((t as int) <= (b as int) * (t as int)) by (nonlinear_arith)
                requires
                    0 <= t as int,
                    1 <= b as int,
            ;
            if rem == 0 {
                assert(a as int == (-(t as int)) * (b as int) + 0) by (nonlinear_arith)
                    requires
                        -(a as int) == (b as int) * (t as int) + (rem as int),
                        rem as int == 0,
                ;
                lemma_fundamental_div_mod_converse(a as int, b as int, -(t as int), 0);
            } else {
                assert(a as int == (-(t as int) - 1) * (b as int) + ((b as int) - (rem as int)))
                    by (nonlinear_arith)
                    requires
                        -(a as int) == (b as int) * (t as int) + (rem as int),
                ;
                lemma_fundamental_div_mod_converse(
                    a as int,
                    b as int,
                    -(t as int) - 1,
                    (b as int) - (rem as int),
                );
            }
        }
        if rem == 0 {
            -t
        } else {
            -t - 1
        }
    }
}

/// The integer square root: the largest `r` with `r * r <= n`.
pub open spec fn isqrt_spec(n: int) -> int
    decreases n,
{
    if n <= 0 {
        0
    } else {
        let r = isqrt_spec(n - 1);
        if (r + 1) * (r + 1) <= n {
            r + 1
        } else {
            r
        }
    }
}

pub proof fn lemma_isqrt_spec_bounds(n: int)
    requires
        0 <= n,
    ensures
        0 <= isqrt_spec(n),
        isqrt_spec(n) * isqrt_spec(n) <= n,
        n < (isqrt_spec(n) + 1) * (isqrt_spec(n) + 1),
    decreases n,
{
    if n == 0 {
    } else {
        lemma_isqrt_spec_bounds(n - 1);
        let r = isqrt_spec(n - 1);
        if (r + 1) * (r + 1) <= n {
            assert(n < ((r + 1) + 1) * ((r + 1) + 1)) by (nonlinear_arith)
                requires
                    0 <= r,
                    n - 1 < (r + 1) * (r + 1),
            ;
        }
    }
}

/// `r * r <= n < (r + 1) * (r + 1)` pins the integer square root.
pub proof fn lemma_isqrt_unique(n: int, r: int)
    requires
        0 <= n,
        0 <= r,
        r * r <= n,
        n < (r + 1) * (r + 1),
    ensures
        r == isqrt_spec(n),
{
    lemma_isqrt_spec_bounds(n);
    let s = isqrt_spec(n);
    if r < s {
        assert((r + 1) * (r + 1) <= s * s) by (nonlinear_arith)
            requires
                0 <= r,
                r + 1 <= s,
        ;
        assert(false);
    } else if s < r {
        assert((s + 1) * (s + 1) <= r * r) by (nonlinear_arith)
            requires
                0 <= s,
                s + 1 <= r,
        ;
        assert(false);
    }
}

/// An integer below a square is below the root: `r * r <= n` and
/// `n < k * k` give `r < k`.
pub proof fn lemma_below_square(r: int, n: int, k: int)
    requires
        0 <= r,
        0 <= k,
        r * r <= n,
        n < k * k,
    ensures
        r < k,
{
    if k <= r {
        assert(k * k <= r * r) by (nonlinear_arith)
            requires
                0 <= k <= r,
        ;
        assert(false);
    }
}

pub fn isqrt(n: i64) -> (r: i64)
    requires
        0 <= n,
    ensures
        r == isqrt_spec(n as int),
        0 <= r,
        r * r <= n,
        n < (r + 1) * (r + 1),
{
    let mut lo: i64 = 0;
    let mut hi: i64 = 3_037_000_500;
    assert(i64::MAX < 3_037_000_500int * 3_037_000_500int);
    while lo + 1 < hi
        invariant
            0 <= lo < hi <= 3_037_000_500,
            lo * lo <= n,
            (n as int) < (hi as int) * (hi as int),
        decreases hi - lo,
    {
        let mid = lo + (hi - lo) / 2;
        assert(lo < mid < hi);
        assert(mid * mid <= 3_037_000_499 * 3_037_000_499) by (nonlinear_arith)
            requires
                0 <= mid <= 3_037_000_499,
        ;
        if mid * mid <= n {
            lo = mid;
        } else {
            hi = mid;
        }
    }
    proof {
        lemma_isqrt_unique(n as int, lo as int);
    }
    lo
}

pub open spec fn sq(a: int) -> int {
    a * a
}

/// Each coordinate offset is bounded by the rounded-down distance:
/// `dx * dx + dy * dy < (d + 1)^2` keeps both legs within `[-d, d]`.
pub proof fn lemma_leg_le_dist(dx: int, dy: int, d: int)
    requires
        0 <= d,
        dx * dx + dy * dy < (d + 1) * (d + 1),
    ensures
        -d <= dx <= d,
        -d <= dy <= d,
{
    assert(0 <= dx * dx && 0 <= dy * dy) by (nonlinear_arith);
    if dx > d || dx < -d {
        assert(dx * dx >= (d + 1) * (d + 1)) by (nonlinear_arith)
            requires
                0 <= d,
                dx > d || dx < -d,
        ;
        assert(false);
    }
    if dy > d || dy < -d {
        assert(dy * dy >= (d + 1) * (d + 1)) by (nonlinear_arith)
            requires
                0 <= d,
                dy > d || dy < -d,
        ;
        assert(false);
    }
}

/// Distance between two points in milli-units, rounded down.
pub open spec fn dist_spec(x1: int, y1: int, x2: int, y2: int) -> int {
    isqrt_spec(sq(x2 - x1) + sq(y2 - y1))
}

pub fn dist_milli(x1: i64, y1: i64, x2: i64, y2: i64) -> (d: i64)
    requires
        -1_000_000_000 <= x1 <= 1_000_000_000,
        -1_000_000_000 <= y1 <= 1_000_000_000,
        -1_000_000_000 <= x2 <= 1_000_000_000,
        -1_000_000_000 <= y2 <= 1_000_000_000,
    ensures
        d == dist_spec(x1 as int, y1 as int, x2 as int, y2 as int),
        0 <= d < 3_000_000_000,
        d * d <= sq(x2 - x1) + sq(y2 - y1),
        sq(x2 - x1) + sq(y2 - y1) < (d + 1) * (d + 1),
{
    let dx = x2 - x1;
    let dy = y2 - y1;
    assert(dx * dx <= 2_000_000_000 * 2_000_000_000 && dx * dx >= 0) by (nonlinear_arith)
        requires
            -2_000_000_000 <= dx <= 2_000_000_000,
    ;
    assert(dy * dy <= 2_000_000_000 * 2_000_000_000 && dy * dy >= 0) by (nonlinear_arith)
        requires
            -2_000_000_000 <= dy <= 2_000_000_000,
    ;
    let s = dx * dx + dy * dy;
    let d = isqrt(s);
    proof {
        lemma_below_square(d as int, s as int, 3_000_000_000int);
    }
    d
}

/// Quadratic arc approximating the sine on `[0, PI_MILLI]`, in milli-units.
pub open spec fn sin_arc(x: int) -> int {
    (4000 * x * (PI_MILLI - x)) / 9_869_481
}

pub proof fn lemma_sin_arc_bounds(x: int)
    requires
        0 <= x <= PI_MILLI,
    ensures
        0 <= sin_arc(x) <= 999,
        0 <= x * (PI_MILLI - x) <= 2_466_470,
{
    assert(x * (3141 - x) == 2_466_470 - (x - 1570) * (x - 1571)) by (nonlinear_arith);
    if x <= 1570 {
        assert((x - 1570) * (x - 1571) >= 0) by (nonlinear_arith)
            requires
                x <= 1570,
        ;
    } else {
        assert((x - 1570) * (x - 1571) >= 0) by (nonlinear_arith)
            requires
                x >= 1571,
        ;
    }
    assert(x * (3141 - x) >= 0) by (nonlinear_arith)
        requires
            0 <= x <= 3141,
    ;
    assert(4000 * x * (3141 - x) == 4000 * (x * (3141 - x))) by (nonlinear_arith);
    let num = 4000 * x * (PI_MILLI - x);
    assert(num <= 9_865_880_000);
    lemma_div_pos_is_pos(num, 9_869_481);
    lemma_multiply_divide_lt(num, 9_869_481, 1000);
}

fn sin_arc_fp(x: i64) -> (r: i64)
    requires
        0 <= x <= PI_MILLI,
    ensures
        r == sin_arc(x as int),
        0 <= r <= 999,
{
    proof {
        lemma_sin_arc_bounds(x as int);
    }
    let prod = x * (PI_MILLI - x);
    let num = 4000 * prod;
    proof {
        assert(4000 * (x as int) * (PI_MILLI - x as int) == 4000 * ((x as int) * (PI_MILLI
            - x as int))) by (nonlinear_arith);
    }
    num / 9_869_481
}

/// The sine of an angle in `[0, TWO_PI_MILLI)`, in milli-units.
pub open spec fn sin_approx(a: int) -> int {
    if a < PI_MILLI {
        sin_arc(a)
    } else {
        -sin_arc(a - PI_MILLI)
    }
}

/// The cosine as the sine shifted a quarter turn.
pub open spec fn cos_approx(a: int) -> int {
    if a + HALF_PI_MILLI < TWO_PI_MILLI {
        sin_approx(a + HALF_PI_MILLI)
    } else {
        sin_approx(a + HALF_PI_MILLI - TWO_PI_MILLI)
    }
}

pub fn sin_fp(a: i64) -> (r: i64)
    requires
        0 <= a < TWO_PI_MILLI,
    ensures
        r == sin_approx(a as int),
        -999 <= r <= 999,
{
    if a < PI_MILLI {
        sin_arc_fp(a)
    } else {
        -sin_arc_fp(a - PI_MILLI)
    }
}

pub fn cos_fp(a: i64) -> (r: i64)
    requires
        0 <= a < TWO_PI_MILLI,
    ensures
        r == cos_approx(a as int),
        -999 <= r <= 999,
{
    let b = a + HALF_PI_MILLI;
    if b < TWO_PI_MILLI {
        sin_fp(b)
    } else {
        sin_fp(b - TWO_PI_MILLI)
    }
}

/// An angle folded back into `[0, TWO_PI_MILLI)` after one update.
pub open spec fn norm_angle_spec(a: int) -> int {
    if a < 0 {
        a + TWO_PI_MILLI
    } else if a >= TWO_PI_MILLI {
        a - TWO_PI_MILLI
    } else {
        a
    }
}

pub fn norm_angle(a: i64) -> (r: i64)
    requires
        -TWO_PI_MILLI <= a < 2 * TWO_PI_MILLI,
    ensures
        r == norm_angle_spec(a as int),
        0 <= r < TWO_PI_MILLI,
{
    if a < 0 {
        a + TWO_PI_MILLI
    } else if a >= TWO_PI_MILLI {
        a - TWO_PI_MILLI
    } else {
        a
    }
}

/// Magnitude of the rational tanh approximation on `[0, 3000]`.
pub open spec fn tanh_mag(x: int) -> int {
    (x * (27_000_000 + x * x)) / (27_000_000 + 9 * (x * x))
}

/// The hyperbolic tangent in milli-units: the argument is clamped to
/// `[-3000, 3000]`, where the rational approximation reaches saturation.
pub open spec fn tanh_approx(x: int) -> int {
    let c = clamp_spec(x, -3000, 3000);
    if c >= 0 {
        tanh_mag(c)
    } else {
        -tanh_mag(-c)
    }
}

pub proof fn lemma_tanh_mag_bounds(x: int)
    requires
        0 <= x <= 3000,
    ensures
        0 <= tanh_mag(x) <= 1000,
        0 <= x * x <= 9_000_000,
{
    assert(0 <= x * x <= 9_000_000) by (nonlinear_arith)
        requires
            0 <= x <= 3000,
    ;
    let num = x * (27_000_000 + x * x);
    let den = 27_000_000 + 9 * (x * x);
    assert(x * (27_000_000 + x * x) - 1000 * (27_000_000 + 9 * (x * x)) == (x - 3000) * (x
        - 3000) * (x - 3000)) by (nonlinear_arith);
    assert((x - 3000) * (x - 3000) * (x - 3000) <= 0) by (nonlinear_arith)
        requires
            x <= 3000,
    ;
    assert(x * (27_000_000 + x * x) >= 0) by (nonlinear_arith)
        requires
            0 <= x,
    ;
    assert(den >= 27_000_000);
    lemma_div_pos_is_pos(num, den);
    lemma_multiply_divide_le(num, den, 1000);
}

pub fn tanh_fp(x: i64) -> (r: i64)
    ensures
        r == tanh_approx(x as int),
        -1000 <= r <= 1000,
        x == 0 ==> r == 0,
{
    let c = clamp_i64(x, -3000, 3000);
    let m = if c >= 0 {
        c
    } else {
        -c
    };
    proof {
        lemma_tanh_mag_bounds(m as int);
        assert(0 <= (m as int) * (27_000_000 + (m as int) * (m as int)) <= 108_000_000_000int)
            by (nonlinear_arith)
            requires
                0 <= m as int <= 3000,
        ;
    }
    let num = m * (27_000_000 + m * m);
    let den = 27_000_000 + 9 * (m * m);
    let t = num / den;
    proof {
        if x == 0 {
            assert(m == 0);
            assert(num == 0) by (nonlinear_arith)
                requires
                    m as int == 0,
                    num == (m as int) * (27_000_000 + (m as int) * (m as int)),
            ;
            assert(0int / (den as int) == 0) by (nonlinear_arith)
                requires
                    den as int >= 1,
            ;
        }
    }
    if c >= 0 {
        t
    } else {
        -t
    }
}

/// The sine of the bearing from a heading toward an offset `(dx, dy)`
/// at distance `dist`: `(dy cos - dx sin) / dist`, clamped to one.
/// A zero offset reduces to the sine of the negated heading.
pub open spec fn bearing_sin_spec(dx: int, dy: int, dist: int, sin_t: int, cos_t: int) -> int {
    if dist <= 0 {
        -sin_t
    } else {
        clamp_spec(sdiv_spec(dy * cos_t - dx * sin_t, dist), -SCALE as int, SCALE as int)
    }
}

pub fn bearing_sin(dx: i64, dy: i64, dist: i64, sin_t: i64, cos_t: i64) -> (r: i64)
    requires
        -3_000_000_000 <= dx <= 3_000_000_000,
        -3_000_000_000 <= dy <= 3_000_000_000,
        -1000 <= sin_t <= 1000,
        -1000 <= cos_t <= 1000,
    ensures
        r == bearing_sin_spec(dx as int, dy as int, dist as int, sin_t as int, cos_t as int),
        -1000 <= r <= 1000,
{
    if dist <= 0 {
        -sin_t
    } else {
        proof {
            assert(-3_000_000_000_000int <= (dy as int) * (cos_t as int) <= 3_000_000_000_000int)
                by (nonlinear_arith)
                requires
                    -3_000_000_000 <= dy as int <= 3_000_000_000,
                    -1000 <= cos_t as int <= 1000,
            ;
            assert(-3_000_000_000_000int <= (dx as int) * (sin_t as int) <= 3_000_000_000_000int)
                by (nonlinear_arith)
                requires
                    -3_000_000_000 <= dx as int <= 3_000_000_000,
                    -1000 <= sin_t as int <= 1000,
            ;
        }
        let num = dy * cos_t - dx * sin_t;
        clamp_i64(sdiv(num, dist), -SCALE, SCALE)
    }
}

} // verus!
