//! Scalar fixed-point arithmetic: truncating division, integer square root,
//! and a fixed-point sine/cosine on millidegrees.
//!
//! All geometry in this crate is carried out on plain integers. Angles are
//! measured in millidegrees (a full turn is 360 000), and unit quantities
//! (direction components, trigonometric values) are scaled by `UNIT`.

use vstd::prelude::*;

verus! {

/// Scale of unit quantities: a vector of length `UNIT` stands for a unit
/// vector, and `sin`/`cos` return values in `[-UNIT, UNIT]`.
pub const UNIT: i128 = 1_000_000;

/// Millidegrees in a full turn.
pub const FULL_TURN: i128 = 360_000;

/// Millidegrees in a half turn.
pub const HALF_TURN: i128 = 180_000;

pub open spec fn spec_abs(a: int) -> int {
    if a >= 0 {
        a
    } else {
        -a
    }
}

/// Division truncating toward zero, as Rust's `/` computes it on signed
/// integers. Division by a nonpositive divisor is defined as zero so that
/// the function is total; executable code never divides by those.
pub open spec fn spec_tdiv(a: int, b: int) -> int {
    if b <= 0 {
        0
    } else if a >= 0 {
        a / b
    } else {
        -((-a) / b)
    }
}

/// Truncating division of `i128` values, pinned to `spec_tdiv`.
pub fn tdiv(a: i128, b: i128) -> (r: i128)
    requires
        b > 0,
        a > i128::MIN,
    ensures
        r == spec_tdiv(a as int, b as int),
        spec_abs(r as int) <= spec_abs(a as int),
{
    proof {
        lemma_tdiv_bounds(a as int, b as int);
    }
    a / b
}

/// For a nonnegative dividend, the quotient brackets the dividend:
/// `b * q <= a < b * (q + 1)`, and the quotient stays within `[0, a]`.
pub proof fn lemma_tdiv_nonneg(a: int, b: int)
    requires
        a >= 0,
        b > 0,
    ensures
        b * spec_tdiv(a, b) <= a,
        a < b * (spec_tdiv(a, b) + 1),
        0 <= spec_tdiv(a, b) <= a,
{
    let q = a / b;
    assert(q * b + a % b == a) by {
        vstd::arithmetic::div_mod::lemma_fundamental_div_mod(a, b);
    }
    assert(0 <= a % b < b) by {
        vstd::arithmetic::div_mod::lemma_mod_bound(a, b);
    }
    assert(q >= 0) by {
        vstd::arithmetic::div_mod::lemma_div_is_ordered(0, a, b);
    }
    assert(q <= a) by {
        vstd::arithmetic::div_mod::lemma_div_is_ordered_by_denominator(a, 1, b);
    }
    assert(b * q == q * b) by (nonlinear_arith);
    assert(b * (q + 1) == q * b + b) by (nonlinear_arith);
}

/// The quotient of a truncating division never exceeds the dividend in
/// magnitude.
pub proof fn lemma_tdiv_bounds(a: int, b: int)
    requires
        b > 0,
    ensures
        spec_abs(spec_tdiv(a, b)) <= spec_abs(a),
        b * spec_abs(spec_tdiv(a, b)) <= spec_abs(a),
        spec_abs(a) < b * (spec_abs(spec_tdiv(a, b)) + 1),
{
    if a >= 0 {
        lemma_tdiv_nonneg(a, b);
    } else {
        lemma_tdiv_nonneg(-a, b);
    }
}

/// Remainder truncating toward zero, as Rust's `%` computes it on signed
/// integers; total, with nonpositive modulus giving zero.
pub open spec fn spec_tmod(a: int, b: int) -> int {
    if b <= 0 {
        0
    } else if a >= 0 {
        a % b
    } else {
        -((-a) % b)
    }
}

/// The truncating remainder stays strictly within `(-b, b)`.
pub proof fn lemma_tmod_bounds(a: int, b: int)
    requires
        b > 0,
    ensures
        -b < spec_tmod(a, b) < b,
        a >= 0 ==> spec_tmod(a, b) >= 0,
{
    if a >= 0 {
        vstd::arithmetic::div_mod::lemma_mod_bound(a, b);
    } else {
        vstd::arithmetic::div_mod::lemma_mod_bound(-a, b);
    }
}

/// Truncating remainder of `i128` values, pinned to `spec_tmod`.
pub fn tmod(a: i128, b: i128) -> (r: i128)
    requires
        b > 0,
        a > i128::MIN,
    ensures
        r == spec_tmod(a as int, b as int),
        -b < r < b,
{
    proof {
        lemma_tmod_bounds(a as int, b as int);
    }
    a % b
}

/// An angle folded into `[0, FULL_TURN)`.
pub open spec fn spec_wrap_angle(a: int) -> int {
    spec_tmod(spec_tmod(a, FULL_TURN as int) + FULL_TURN as int, FULL_TURN as int)
}

/// Fold any angle into `[0, FULL_TURN)` millidegrees.
pub fn wrap_angle(a: i128) -> (r: i128)
    requires
        a > i128::MIN,
    ensures
        r == spec_wrap_angle(a as int),
        0 <= r < FULL_TURN,
{
    let t = tmod(a, FULL_TURN);
    proof {
        lemma_tmod_bounds(t as int + FULL_TURN as int, FULL_TURN as int);
    }
    tmod(t + FULL_TURN, FULL_TURN)
}

/// Magnitudes multiply: bounds on two factors bound their product.
pub proof fn lemma_abs_mul_le(a: int, b: int, ca: int, cb: int)
    requires
        spec_abs(a) <= ca,
        spec_abs(b) <= cb,
    ensures
        spec_abs(a * b) <= ca * cb,
{
    assert(spec_abs(a * b) <= ca * cb) by (nonlinear_arith)
        requires
            -ca <= a <= ca,
            -cb <= b <= cb,
    ;
}

/// The integer square root, defined by counting up.
pub open spec fn spec_isqrt(n: nat) -> nat
    decreases n,
{
    if n == 0 {
        0
    } else {
        let p = spec_isqrt((n - 1) as nat);
        if (p + 1) * (p + 1) <= n {
            p + 1
        } else {
            p
        }
    }
}

/// The defining property of the integer square root.
pub proof fn lemma_isqrt_bounds(n: nat)
    ensures
        spec_isqrt(n) * spec_isqrt(n) <= n,
        n < (spec_isqrt(n) + 1) * (spec_isqrt(n) + 1),
    decreases n,
{
    if n == 0 {
        assert(spec_isqrt(0) == 0);
        assert(n < (spec_isqrt(n) + 1) * (spec_isqrt(n) + 1)) by (nonlinear_arith)
            requires
                n == 0,
                spec_isqrt(n) == 0,
        ;
    } else {
        lemma_isqrt_bounds((n - 1) as nat);
        let p = spec_isqrt((n - 1) as nat);
        assert(p * p <= n - 1);
        assert(n - 1 < (p + 1) * (p + 1));
        if (p + 1) * (p + 1) <= n {
            assert(spec_isqrt(n) == p + 1);
            // Here n - 1 < (p + 1)^2 <= n, so n == (p + 1)^2.
            assert(n == (p + 1) * (p + 1));
            assert(n < (spec_isqrt(n) + 1) * (spec_isqrt(n) + 1)) by (nonlinear_arith)
                requires
                    spec_isqrt(n) == p + 1,
                    n == (p + 1) * (p + 1),
                    p >= 0,
            ;
        } else {
            assert(spec_isqrt(n) == p);
            assert(p * p <= n);
            assert(n < (spec_isqrt(n) + 1) * (spec_isqrt(n) + 1));
        }
    }
}

/// Any value with the square-root property is the square root.
pub proof fn lemma_isqrt_unique(n: nat, r: nat)
    requires
        r * r <= n,
        n < (r + 1) * (r + 1),
    ensures
        r == spec_isqrt(n),
{
    lemma_isqrt_bounds(n);
    let s = spec_isqrt(n);
    assert(r == s) by (nonlinear_arith)
        requires
            r * r <= n,
            n < (r + 1) * (r + 1),
            s * s <= n,
            n < (s + 1) * (s + 1),
            r >= 0,
            s >= 0,
    ;
}

/// The square root is monotone.
pub proof fn lemma_isqrt_monotone(a: nat, b: nat)
    requires
        a <= b,
    ensures
        spec_isqrt(a) <= spec_isqrt(b),
{
    lemma_isqrt_bounds(a);
    lemma_isqrt_bounds(b);
    let x = spec_isqrt(a);
    let y = spec_isqrt(b);
    assert(x <= y) by (nonlinear_arith)
        requires
            x * x <= a,
            a < (x + 1) * (x + 1),
            y * y <= b,
            b < (y + 1) * (y + 1),
            a <= b,
            x >= 0,
            y >= 0,
    ;
}

/// The square root of a perfect square.
pub proof fn lemma_isqrt_square(r: nat)
    ensures
        spec_isqrt(r * r) == r,
{
    assert(r * r < (r + 1) * (r + 1)) by (nonlinear_arith)
        requires
            r >= 0,
    ;
    lemma_isqrt_unique(r * r, r);
}

/// Integer square root by binary search.
pub fn isqrt(n: i128) -> (r: i128)
    requires
        0 <= n,
        n < 0x1000_0000_0000_0000_0000_0000_0000_0000,
    ensures
        r == spec_isqrt(n as nat),
        r * r <= n < (r + 1) * (r + 1),
        0 <= r <= n,
{
    let mut lo: i128 = 0;
    let mut hi: i128 = n + 1;
    if hi > 0x8000_0000_0000_0000 {
        hi = 0x8000_0000_0000_0000;
    }
    // The answer lies in [lo, hi): lo * lo <= n < hi * hi.
    proof {
        assert(hi * hi > n) by (nonlinear_arith)
            requires
                hi == if n + 1 > 0x8000_0000_0000_0000 { 0x8000_0000_0000_0000 as int } else {
                    n + 1
                },
                0 <= n < 0x1000_0000_0000_0000_0000_0000_0000_0000,
        ;
    }
    while lo + 1 < hi
        invariant
            0 <= lo < hi <= 0x8000_0000_0000_0000,
            lo * lo <= n,
            n < hi * hi,
        decreases hi - lo,
    {
        let mid = lo + (hi - lo) / 2;
        proof {
            assert(lo < mid < hi);
            assert(mid * mid <= 0x8000_0000_0000_0000 * 0x8000_0000_0000_0000) by (nonlinear_arith)
                requires
                    0 < mid <= 0x8000_0000_0000_0000,
            ;
        }
        if mid * mid <= n {
            lo = mid;
        } else {
            hi = mid;
        }
    }
    proof {
        lemma_isqrt_unique(n as nat, lo as nat);
        assert(lo <= n) by (nonlinear_arith)
            requires
                lo >= 0,
                lo * lo <= n,
        ;
    }
    lo
}

/// Fixed-point sine of half a turn, by Bhaskara's approximation:
/// `sin(x) ~= 4 x (H - x) / (H^2 * 5/4 - x (H - x))` for `x` in `[0, H]`,
/// scaled so that the result lies in `[0, UNIT]`, with the peak at exactly
/// `UNIT`.
pub open spec fn spec_sin_half(x: int) -> int {
    let c = x * (HALF_TURN - x);
    spec_tdiv(4 * c * (UNIT as int), 40_500_000_000 - c)
}

/// Fixed-point sine of an angle in millidegrees, in `[0, FULL_TURN)`.
pub open spec fn spec_sin(a: int) -> int {
    if a < HALF_TURN {
        spec_sin_half(a)
    } else {
        -spec_sin_half(a - HALF_TURN)
    }
}

/// Fixed-point cosine, as the sine shifted by a quarter turn.
pub open spec fn spec_cos(a: int) -> int {
    spec_sin((a + 90_000) % (FULL_TURN as int))
}

/// The product `x * (H - x)` peaks at `(H/2)^2` on `[0, H]`.
proof fn lemma_sin_core_bounds(x: int)
    requires
        0 <= x <= HALF_TURN,
    ensures
        0 <= x * (HALF_TURN - x) <= 8_100_000_000,
{
    assert(0 <= x * (180_000 - x) <= 8_100_000_000) by (nonlinear_arith)
        requires
            0 <= x <= 180_000,
    ;
}

/// The fixed-point sine stays within the unit scale.
pub proof fn lemma_sin_range(a: int)
    requires
        0 <= a < FULL_TURN,
    ensures
        -UNIT <= spec_sin(a) <= UNIT,
{
    let x = if a < HALF_TURN {
        a
    } else {
        a - HALF_TURN
    };
    lemma_sin_core_bounds(x);
    let c = x * (HALF_TURN - x);
    let num = 4 * c * UNIT;
    let den = 40_500_000_000 - c;
    assert(den >= 32_400_000_000);
    assert(num >= 0 && num <= (UNIT as int) * den) by (nonlinear_arith)
        requires
            num == 4 * c * (UNIT as int),
            den == 40_500_000_000 - c,
            UNIT == 1_000_000,
            0 <= c <= 8_100_000_000,
    ;
    let q = spec_tdiv(num, den);
    lemma_tdiv_nonneg(num, den);
    // q <= UNIT because den * q <= num <= UNIT * den.
    assert(q <= UNIT) by (nonlinear_arith)
        requires
            den * q <= num,
            num <= (UNIT as int) * den,
            den > 0,
    ;
    assert(spec_sin(a) == q || spec_sin(a) == -q);
}

/// Executable fixed-point sine on millidegrees.
pub fn sin_fix(a: i128) -> (r: i128)
    requires
        0 <= a < FULL_TURN,
    ensures
        r == spec_sin(a as int),
        -UNIT <= r <= UNIT,
{
    proof {
        lemma_sin_range(a as int);
    }
    let x: i128 = if a < HALF_TURN {
        a
    } else {
        a - HALF_TURN
    };
    proof {
        lemma_sin_core_bounds(x as int);
    }
    let c: i128 = x * (HALF_TURN - x);
    let s: i128 = tdiv(4 * c * UNIT, 40_500_000_000 - c);
    if a < HALF_TURN {
        s
    } else {
        -s
    }
}

/// Executable fixed-point cosine on millidegrees.
pub fn cos_fix(a: i128) -> (r: i128)
    requires
        0 <= a < FULL_TURN,
    ensures
        r == spec_cos(a as int),
        -UNIT <= r <= UNIT,
{
    let shifted: i128 = (a + 90_000) % FULL_TURN;
    proof {
        vstd::arithmetic::div_mod::lemma_mod_bound((a + 90_000) as int, FULL_TURN as int);
        lemma_sin_range(shifted as int);
    }
    sin_fix(shifted)
}

} // verus!
