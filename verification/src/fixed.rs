//! Saturating fixed-point scalars.
//!
//! A scalar is an `i64` counting multiples of 2^-16 (so `FX_ONE` stands for
//! the real number 1). Every operation clips its result to
//! `[-FX_LIMIT, FX_LIMIT]`, which makes all of them total: overflow saturates
//! instead of wrapping, and a division by zero saturates toward the sign of
//! the dividend. `FX_LIMIT` plays the role that infinity plays for
//! floating-point scalars.

use vstd::prelude::*;

verus! {

/// The fixed-point representation of the real number 1 (2^16).
pub const FX_ONE: i64 = 65536;

/// Saturation bound of every fixed-point scalar (2^46).
pub const FX_LIMIT: i64 = 0x4000_0000_0000;

/// A well-formed scalar lies within the saturation bounds.
pub open spec fn fx_wf(a: int) -> bool {
    -FX_LIMIT <= a <= FX_LIMIT
}

/// Clip a mathematical integer to the saturation range.
pub open spec fn fx_clip(x: int) -> int {
    if x > FX_LIMIT {
        FX_LIMIT as int
    } else if x < -FX_LIMIT {
        -(FX_LIMIT as int)
    } else {
        x
    }
}

/// Division of a raw product by 2^16, rounding toward zero.
pub open spec fn fx_shift_down(x: int) -> int {
    if x >= 0 {
        x / 65536
    } else {
        -((-x) / 65536)
    }
}

/// Truncating (round-toward-zero) integer division; zero divisor saturates.
pub open spec fn fx_tdiv(a: int, b: int) -> int {
    if b == 0 {
        if a >= 0 {
            FX_LIMIT as int
        } else {
            -(FX_LIMIT as int)
        }
    } else {
        let q = abs_of(a) / abs_of(b);
        if (a >= 0) == (b >= 0) {
            q as int
        } else {
            -(q as int)
        }
    }
}

/// Magnitude of an integer, as a natural number.
pub open spec fn abs_of(a: int) -> nat {
    if a >= 0 {
        a as nat
    } else {
        (-a) as nat
    }
}

/// Saturating fixed-point addition.
pub open spec fn fx_add(a: int, b: int) -> int {
    fx_clip(a + b)
}

/// Saturating fixed-point subtraction.
pub open spec fn fx_sub(a: int, b: int) -> int {
    fx_clip(a - b)
}

/// Saturating fixed-point multiplication, rounding toward zero.
pub open spec fn fx_mul(a: int, b: int) -> int {
    fx_clip(fx_shift_down(a * b))
}

/// Saturating fixed-point division, rounding toward zero.
pub open spec fn fx_div(a: int, b: int) -> int {
    fx_clip(fx_tdiv(a * 65536, b))
}

/// Exact saturating addition.
pub fn fadd(a: i64, b: i64) -> (r: i64)
    requires
        fx_wf(a as int),
        fx_wf(b as int),
    ensures
        r == fx_add(a as int, b as int),
        fx_wf(r as int),
{
    let s: i64 = a + b;
    if s > FX_LIMIT {
        FX_LIMIT
    } else if s < -FX_LIMIT {
        -FX_LIMIT
    } else {
        s
    }
}

/// Exact saturating subtraction.
pub fn fsub(a: i64, b: i64) -> (r: i64)
    requires
        fx_wf(a as int),
        fx_wf(b as int),
    ensures
        r == fx_sub(a as int, b as int),
        fx_wf(r as int),
{
    let s: i64 = a - b;
    if s > FX_LIMIT {
        FX_LIMIT
    } else if s < -FX_LIMIT {
        -FX_LIMIT
    } else {
        s
    }
}

/// Exact negation (well-formed scalars are symmetric around zero).
pub fn fneg(a: i64) -> (r: i64)
    requires
        fx_wf(a as int),
    ensures
        r == -(a as int),
        fx_wf(r as int),
{
    -a
}

/// How a signed product splits into magnitudes and a sign.
proof fn lemma_mul_signs(a: int, b: int, ma: int, mb: int)
    by (nonlinear_arith)
    requires
        ma == if a >= 0 { a } else { -a },
        mb == if b >= 0 { b } else { -b },
    ensures
        a * b == if (a >= 0) == (b >= 0) { ma * mb } else { -(ma * mb) },
        ma * mb >= 0,
{
}

/// A product of two magnitudes is bounded by the product of their bounds.
proof fn lemma_mul_bound(a: int, b: int, c: int, d: int)
    by (nonlinear_arith)
    requires
        0 <= a <= c,
        0 <= b <= d,
    ensures
        a * b <= c * d,
{
}

/// Exact saturating multiplication, rounding toward zero.
pub fn fmul(a: i64, b: i64) -> (r: i64)
    requires
        fx_wf(a as int),
        fx_wf(b as int),
    ensures
        r == fx_mul(a as int, b as int),
        fx_wf(r as int),
{
    let same_sign: bool = (a >= 0) == (b >= 0);
    let ma: u64 = if a >= 0 {
        a as u64
    } else {
        (-a) as u64
    };
    let mb: u64 = if b >= 0 {
        b as u64
    } else {
        (-b) as u64
    };
    proof {
        lemma_mul_signs(a as int, b as int, ma as int, mb as int);
        lemma_mul_bound(ma as int, mb as int, FX_LIMIT as int, FX_LIMIT as int);
    }
    let p: u128 = (ma as u128) * (mb as u128);
    let q: u128 = p / 65536;
    let qc: i64 = if q > (FX_LIMIT as u128) {
        FX_LIMIT
    } else {
        q as i64
    };
    if same_sign {
        qc
    } else {
        -qc
    }
}

/// Exact saturating division, rounding toward zero; zero divisor saturates.
pub fn fdiv(a: i64, b: i64) -> (r: i64)
    requires
        fx_wf(a as int),
        fx_wf(b as int),
    ensures
        r == fx_div(a as int, b as int),
        fx_wf(r as int),
{
    if b == 0 {
        return if a >= 0 {
            FX_LIMIT
        } else {
            -FX_LIMIT
        };
    }
    let same_sign: bool = (a >= 0) == (b >= 0);
    let ma: u64 = if a >= 0 {
        a as u64
    } else {
        (-a) as u64
    };
    let mb: u64 = if b >= 0 {
        b as u64
    } else {
        (-b) as u64
    };
    let p: u128 = (ma as u128) * 65536;
    let q: u128 = p / (mb as u128);
    let qc: i64 = if q > (FX_LIMIT as u128) {
        FX_LIMIT
    } else {
        q as i64
    };
    if same_sign {
        qc
    } else {
        -qc
    }
}

/// The non-negative square root of `n`, rounded down.
pub open spec fn sqrt_floor(n: nat) -> nat
    decreases n,
{
    if n == 0 {
        0
    } else {
        let r = sqrt_floor((n - 1) as nat);
        if (r + 1) * (r + 1) <= n {
            r + 1
        } else {
            r
        }
    }
}

/// `sqrt_floor(n)` is the largest natural number whose square is at most `n`.
pub proof fn lemma_sqrt_floor_bounds(n: nat)
    ensures
        sqrt_floor(n) * sqrt_floor(n) <= n,
        n < (sqrt_floor(n) + 1) * (sqrt_floor(n) + 1),
    decreases n,
{
    if n == 0 {
        let s = sqrt_floor(n);
        assert(s == 0);
        assert(n < (s + 1) * (s + 1)) by (nonlinear_arith)
            requires
                n == 0,
                s == 0,
        ;
    } else {
        let m = (n - 1) as nat;
        lemma_sqrt_floor_bounds(m);
        let r = sqrt_floor(m);
        if (r + 1) * (r + 1) <= n {
            assert(sqrt_floor(n) == r + 1);
            assert(n <= (r + 1) * (r + 1));
            assert(((r + 1) + 1) * ((r + 1) + 1) > (r + 1) * (r + 1)) by (nonlinear_arith);
            assert(n < (sqrt_floor(n) + 1) * (sqrt_floor(n) + 1));
        } else {
            assert(sqrt_floor(n) == r);
            assert(n < (sqrt_floor(n) + 1) * (sqrt_floor(n) + 1));
        }
    }
}

/// Any number whose square brackets `n` is `sqrt_floor(n)`.
pub proof fn lemma_sqrt_floor_unique(n: nat, r: nat)
    requires
        r * r <= n,
        n < (r + 1) * (r + 1),
    ensures
        r == sqrt_floor(n),
{
    let s = sqrt_floor(n);
    lemma_sqrt_floor_bounds(n);
    if r < s {
        assert((r + 1) * (r + 1) <= s * s) by (nonlinear_arith)
            requires
                r + 1 <= s,
        ;
    }
    if s < r {
        assert((s + 1) * (s + 1) <= r * r) by (nonlinear_arith)
            requires
                s + 1 <= r,
        ;
    }
}

/// Integer square root by bisection.
fn isqrt(n: u128) -> (r: u64)
    requires
        n < 0x10000000000000000000000000,  // 2^100
    ensures
        r as nat == sqrt_floor(n as nat),
{
    let mut lo: u128 = 0;
    let mut hi: u128 = 0x4000000000000;  // 2^50
    proof {
        assert((0x4000000000000 as int) * (0x4000000000000 as int)
            == 0x10000000000000000000000000) by (nonlinear_arith);
    }
    while hi - lo > 1
        invariant
            lo < hi <= 0x4000000000000,
            (lo as int) * (lo as int) <= n as int,
            (n as int) < (hi as int) * (hi as int),
        decreases hi - lo,
    {
        let mid: u128 = lo + (hi - lo) / 2;
        proof {
            lemma_mul_bound(mid as int, mid as int, 0x4000000000000, 0x4000000000000);
        }
        let sq: u128 = mid * mid;
        if sq <= n {
            lo = mid;
        } else {
            hi = mid;
        }
    }
    proof {
        lemma_sqrt_floor_unique(n as nat, lo as nat);
    }
    lo as u64
}

/// Saturating fixed-point square root; non-positive inputs yield zero.
pub open spec fn fx_sqrt(a: int) -> int {
    if a <= 0 {
        0
    } else {
        fx_clip(sqrt_floor((a * 65536) as nat) as int)
    }
}

/// Exact saturating square root.
pub fn fsqrt(a: i64) -> (r: i64)
    requires
        fx_wf(a as int),
    ensures
        r == fx_sqrt(a as int),
        fx_wf(r as int),
        r >= 0,
{
    if a <= 0 {
        return 0;
    }
    let n: u128 = (a as u128) * 65536;
    let s: u64 = isqrt(n);
    proof {
        lemma_sqrt_floor_bounds(n as nat);
        assert(s as int <= FX_LIMIT as int) by (nonlinear_arith)
            requires
                (s as int) * (s as int) <= n as int,
                n as int <= (FX_LIMIT as int) * 65536,
                s >= 0,
        ;
    }
    s as i64
}

/// Multiplying a well-formed scalar by one is exact.
pub proof fn lemma_fx_mul_one(a: int)
    requires
        fx_wf(a),
    ensures
        fx_mul(a, FX_ONE as int) == a,
        fx_mul(FX_ONE as int, a) == a,
{
    assert(a * 65536 == 65536 * a) by (nonlinear_arith);
    if a >= 0 {
        vstd::arithmetic::div_mod::lemma_div_multiples_vanish(a, 65536);
        assert((a * 65536) / 65536 == a);
    } else {
        vstd::arithmetic::div_mod::lemma_div_multiples_vanish(-a, 65536);
        assert((-(a * 65536)) == (-a) * 65536) by (nonlinear_arith);
        assert(((-a) * 65536) / 65536 == -a);
    }
}

/// Dividing a well-formed scalar by one is exact.
pub proof fn lemma_fx_div_one(a: int)
    requires
        fx_wf(a),
    ensures
        fx_div(a, FX_ONE as int) == a,
{
    if a >= 0 {
        assert(abs_of(a * 65536) == a * 65536 && abs_of(65536) == 65536);
        vstd::arithmetic::div_mod::lemma_div_multiples_vanish(a, 65536);
        assert((a * 65536) / 65536 == a);
    } else {
        assert(abs_of(a * 65536) == (-a) * 65536) by {
            assert((-(a * 65536)) == (-a) * 65536) by (nonlinear_arith);
        }
        vstd::arithmetic::div_mod::lemma_div_multiples_vanish(-a, 65536);
        assert(((-a) * 65536) / 65536 == -a);
    }
}

/// The square of a whole number of units, as a fixed-point product.
pub proof fn lemma_fx_square_scaled(k: int)
    requires
        -1000 <= k <= 1000,
    ensures
        fx_mul(k * 65536, k * 65536) == k * k * 65536,
        0 <= k * k * 65536 <= 65536000000,
{
    assert((k * 65536) * (k * 65536) == (k * k * 65536) * 65536 && k * k >= 0 && k * k <= 1000000)
        by (nonlinear_arith)
        requires
            -1000 <= k <= 1000,
    ;
    vstd::arithmetic::div_mod::lemma_div_multiples_vanish(k * k * 65536, 65536);
    assert(((k * k * 65536) * 65536) == 65536 * (k * k * 65536)) by (nonlinear_arith);
}

/// The fixed-point square root of the square of a whole number of units.
pub proof fn lemma_fx_sqrt_square_scaled(k: int)
    requires
        1 <= k <= 1000,
    ensures
        fx_sqrt(k * k * 65536) == k * 65536,
{
    let n = k * k * 65536 * 65536;
    assert((k * 65536) * (k * 65536) == n && n < (k * 65536 + 1) * (k * 65536 + 1) && 0 < k * k
        * 65536 <= 65536000000) by (nonlinear_arith)
        requires
            1 <= k <= 1000,
            n == k * k * 65536 * 65536,
    ;
    lemma_sqrt_floor_unique(n as nat, (k * 65536) as nat);
}

/// Dividing a negated whole-unit scalar by itself gives exactly minus one,
/// and zero divided by it gives zero.
pub proof fn lemma_fx_div_scaled_self(k: int)
    requires
        1 <= k <= 1000,
    ensures
        fx_div(-(k * 65536), k * 65536) == -(FX_ONE as int),
        fx_div(0, k * 65536) == 0,
{
    let r = k * 65536;
    assert(abs_of((-(r)) * 65536) == r * 65536 && abs_of(r) == r) by {
        assert(-((-(r)) * 65536) == r * 65536) by (nonlinear_arith);
    }
    vstd::arithmetic::div_mod::lemma_div_multiples_vanish(65536, r);
    assert((r * 65536) / r == 65536);
    assert(abs_of((0int) * 65536) == 0);
    vstd::arithmetic::div_mod::lemma_div_of0(r);
}

/// A product of non-negative scalars is non-negative and bounded by any `m`
/// whose raw product bound it respects.
pub proof fn lemma_fx_mul_nonneg_bounded(a: int, b: int, m: int)
    requires
        0 <= a,
        0 <= b,
        a * b <= m * 65536,
        0 <= m <= FX_LIMIT,
    ensures
        0 <= fx_mul(a, b) <= m,
{
    assert(a * b >= 0) by (nonlinear_arith)
        requires
            0 <= a,
            0 <= b,
    ;
    vstd::arithmetic::div_mod::lemma_div_is_ordered(0, a * b, 65536);
    vstd::arithmetic::div_mod::lemma_div_is_ordered(a * b, m * 65536, 65536);
    vstd::arithmetic::div_mod::lemma_div_multiples_vanish(m, 65536);
    assert(m * 65536 == 65536 * m) by (nonlinear_arith);
    assert((0int) / 65536 == 0);
}

/// A product of a non-positive and a non-negative scalar is non-positive
/// and bounded below by `-m` under the matching raw product bound.
pub proof fn lemma_fx_mul_nonpos_bounded(d: int, t: int, m: int)
    requires
        d <= 0,
        0 <= t,
        (-d) * t <= m * 65536,
        0 <= m <= FX_LIMIT,
    ensures
        -m <= fx_mul(d, t) <= 0,
{
    assert(d * t <= 0 && -(d * t) == (-d) * t && (-d) * t >= 0) by (nonlinear_arith)
        requires
            d <= 0,
            0 <= t,
    ;
    if d * t == 0 {
        assert(fx_shift_down(d * t) == 0);
    } else {
        vstd::arithmetic::div_mod::lemma_div_is_ordered(0, -(d * t), 65536);
        vstd::arithmetic::div_mod::lemma_div_is_ordered(-(d * t), m * 65536, 65536);
        vstd::arithmetic::div_mod::lemma_div_multiples_vanish(m, 65536);
        assert(m * 65536 == 65536 * m) by (nonlinear_arith);
        assert((0int) / 65536 == 0);
    }
}

/// Division by a non-negative scalar keeps the order of the dividends.
pub proof fn lemma_fx_div_monotone(n1: int, n2: int, b: int)
    requires
        n1 <= n2,
        b >= 0,
    ensures
        fx_div(n1, b) <= fx_div(n2, b),
{
    if b == 0 {
        if n1 >= 0 {
            assert(n2 >= 0);
        }
    } else {
        let m1 = n1 * 65536;
        let m2 = n2 * 65536;
        assert(m1 <= m2);
        let q1 = abs_of(m1) / abs_of(b);
        let q2 = abs_of(m2) / abs_of(b);
        if m1 >= 0 {
            vstd::arithmetic::div_mod::lemma_div_is_ordered(m1, m2, b);
            assert(q1 as int == m1 / b && q2 as int == m2 / b) by {
                assert(abs_of(m1) == m1 && abs_of(m2) == m2 && abs_of(b) == b);
            }
        } else if m2 < 0 {
            vstd::arithmetic::div_mod::lemma_div_is_ordered(-m2, -m1, b);
            assert(q2 <= q1) by {
                assert(abs_of(m1) == -m1 && abs_of(m2) == -m2 && abs_of(b) == b);
            }
            assert(fx_tdiv(m1, b) == -(q1 as int) && fx_tdiv(m2, b) == -(q2 as int));
        } else {
            assert(fx_tdiv(m1, b) == -(q1 as int) && fx_tdiv(m2, b) == q2 as int);
        }
    }
}

/// The smaller of two scalars.
pub open spec fn fx_min(a: int, b: int) -> int {
    if a <= b {
        a
    } else {
        b
    }
}

/// Exact minimum.
pub fn fmin(a: i64, b: i64) -> (r: i64)
    ensures
        r == fx_min(a as int, b as int),
{
    if a <= b {
        a
    } else {
        b
    }
}

/// A scalar clamped into `[lo, hi]` (callers keep `lo <= hi`).
pub open spec fn fx_clamp(x: int, lo: int, hi: int) -> int {
    if x < lo {
        lo
    } else if x > hi {
        hi
    } else {
        x
    }
}

/// Exact clamp.
pub fn fclamp(x: i64, lo: i64, hi: i64) -> (r: i64)
    requires
        lo <= hi,
    ensures
        r == fx_clamp(x as int, lo as int, hi as int),
{
    if x < lo {
        lo
    } else if x > hi {
        hi
    } else {
        x
    }
}

} // verus!
