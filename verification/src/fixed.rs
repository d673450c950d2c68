//! Fixed-point scalar arithmetic.
//!
//! Every quantity in the simulation is a signed integer count of `1/SCALE`
//! world units. Division always rounds toward zero, so the arithmetic is a
//! pure function of its operands and the simulation is deterministic.

use vstd::prelude::*;

verus! {

/// Number of fixed-point sub-units per world unit.
pub const SCALE: i64 = 1024;

/// Largest magnitude a stored scalar may take. Keeping every stored value
/// within `LIMIT` keeps every intermediate product of one tick inside `i128`.
pub const LIMIT: i64 = 0x1_0000_0000_0000;

/// Magnitude of an integer.
pub open spec fn mag(a: int) -> int {
    if a < 0 {
        -a
    } else {
        a
    }
}

/// Division rounding toward zero, defined for a positive divisor.
pub open spec fn div_trunc(a: int, b: int) -> int {
    if a >= 0 {
        a / b
    } else {
        -((-a) / b)
    }
}

/// Product of two fixed-point scalars, scaled back down to fixed point.
pub open spec fn mul_fx(a: int, b: int) -> int {
    div_trunc(a * b, SCALE as int)
}

/// Quotient of two fixed-point scalars, scaled up to fixed point.
pub open spec fn div_fx(a: int, b: int) -> int {
    div_trunc(a * (SCALE as int), b)
}

/// Floor of the square root of a natural number.
pub open spec fn sqrt_floor(n: nat) -> nat
    decreases n,
{
    if n == 0 {
        0
    } else {
        let p = sqrt_floor((n - 1) as nat);
        if (p + 1) * (p + 1) <= n {
            p + 1
        } else {
            p
        }
    }
}

/// `r` is the floor of the square root of `n`.
pub open spec fn is_sqrt_floor(n: int, r: int) -> bool {
    0 <= r && r * r <= n && n < (r + 1) * (r + 1)
}

/// `sqrt_floor` satisfies its bracketing characterization.
pub proof fn lemma_sqrt_floor_is_sqrt(n: nat)
    ensures
        is_sqrt_floor(n as int, sqrt_floor(n) as int),
    decreases n,
{
    if n == 0 {
        assert(sqrt_floor(0) == 0);
    } else {
        lemma_sqrt_floor_is_sqrt((n - 1) as nat);
        let p = sqrt_floor((n - 1) as nat);
        if (p + 1) * (p + 1) <= n {
            assert((p + 1) * (p + 1) < (p + 2) * (p + 2)) by (nonlinear_arith);
            assert(n - 1 < (p + 1) * (p + 1));
        } else {
            assert(p * p <= n - 1 <= n);
        }
    }
}

/// The bracketing characterization determines the square root uniquely.
pub proof fn lemma_sqrt_floor_unique(n: int, r: int)
    requires
        n >= 0,
        is_sqrt_floor(n, r),
    ensures
        r == sqrt_floor(n as nat),
{
    lemma_sqrt_floor_is_sqrt(n as nat);
    let s = sqrt_floor(n as nat) as int;
    if r < s {
        assert((r + 1) * (r + 1) <= s * s) by (nonlinear_arith)
            requires
                0 <= r + 1 <= s,
        ;
        assert(false);
    }
    if s < r {
        assert((s + 1) * (s + 1) <= r * r) by (nonlinear_arith)
            requires
                0 <= s + 1 <= r,
        ;
        assert(false);
    }
}

/// The magnitude of a truncating quotient is the quotient of the magnitudes.
pub proof fn lemma_div_trunc_mag(a: int, b: int)
    requires
        b > 0,
    ensures
        mag(div_trunc(a, b)) == mag(a) / b,
        a >= 0 ==> div_trunc(a, b) >= 0,
        a < 0 ==> div_trunc(a, b) <= 0,
{
    assert(0int / b == 0) by (nonlinear_arith)
        requires
            b > 0,
    ;
    if a >= 0 {
        vstd::arithmetic::div_mod::lemma_div_is_ordered(0, a, b);
    } else {
        vstd::arithmetic::div_mod::lemma_div_is_ordered(0, -a, b);
    }
}

/// Dividing by a positive divisor never grows the magnitude of the dividend;
/// scaled back up by the divisor, the quotient stays within the dividend.
pub proof fn lemma_div_trunc_bound(a: int, b: int)
    requires
        b > 0,
    ensures
        mag(div_trunc(a, b)) <= mag(a),
        b * mag(div_trunc(a, b)) <= mag(a),
{
    lemma_div_trunc_mag(a, b);
    let q = mag(a) / b;
    vstd::arithmetic::div_mod::lemma_fundamental_div_mod(mag(a), b);
    vstd::arithmetic::div_mod::lemma_mod_bound(mag(a), b);
    assert(b * q <= mag(a));
    assert(q <= b * q) by (nonlinear_arith)
        requires
            b >= 1,
            q >= 0,
    ;
}

/// Truncating division exactly undoes multiplication by the divisor.
pub proof fn lemma_div_trunc_exact(q: int, b: int)
    requires
        b > 0,
    ensures
        div_trunc(b * q, b) == q,
{
    if q >= 0 {
        assert((b * q) / b == q) by {
            vstd::arithmetic::div_mod::lemma_div_multiples_vanish(q, b);
        }
    } else {
        assert(-(b * q) == b * (-q)) by (nonlinear_arith);
        assert((b * (-q)) / b == -q) by {
            vstd::arithmetic::div_mod::lemma_div_multiples_vanish(-q, b);
        }
    }
}

/// The magnitude of a product is bounded by the product of magnitude bounds.
pub proof fn lemma_mul_mag(a: int, b: int, ma: int, mb: int)
    requires
        mag(a) <= ma,
        mag(b) <= mb,
    ensures
        mag(a * b) <= ma * mb,
        mag(a) * mag(b) <= ma * mb,
{
    assert(mag(a) * mag(b) <= ma * mb) by (nonlinear_arith)
        requires
            0 <= mag(a) <= ma,
            0 <= mag(b) <= mb,
    ;
    if a >= 0 && b >= 0 {
        assert(a * b >= 0 && a * b <= ma * mb) by (nonlinear_arith)
            requires
                0 <= a <= ma,
                0 <= b <= mb,
        ;
    } else if a >= 0 && b < 0 {
        assert(a * b <= 0 && -(a * b) <= ma * mb) by (nonlinear_arith)
            requires
                0 <= a <= ma,
                0 <= -b <= mb,
        ;
    } else if a < 0 && b >= 0 {
        assert(a * b <= 0 && -(a * b) <= ma * mb) by (nonlinear_arith)
            requires
                0 <= -a <= ma,
                0 <= b <= mb,
        ;
    } else {
        assert(a * b >= 0 && a * b <= ma * mb) by (nonlinear_arith)
            requires
                0 <= -a <= ma,
                0 <= -b <= mb,
        ;
    }
}

/// No component of a vector is longer than the floor square root of the
/// vector's squared length.
pub proof fn lemma_component_le_sqrt(x: int, y: int)
    ensures
        mag(x) <= sqrt_floor((x * x + y * y) as nat),
        mag(y) <= sqrt_floor((x * x + y * y) as nat),
{
    assert(x * x >= 0 && y * y >= 0 && x * x == mag(x) * mag(x) && y * y == mag(y) * mag(y))
        by (nonlinear_arith);
    let n = (x * x + y * y) as nat;
    lemma_sqrt_floor_is_sqrt(n);
    let r = sqrt_floor(n) as int;
    if mag(x) > r {
        assert((r + 1) * (r + 1) <= mag(x) * mag(x)) by (nonlinear_arith)
            requires
                0 <= r + 1 <= mag(x),
        ;
        assert(false);
    }
    if mag(y) > r {
        assert((r + 1) * (r + 1) <= mag(y) * mag(y)) by (nonlinear_arith)
            requires
                0 <= r + 1 <= mag(y),
        ;
        assert(false);
    }
}

/// Truncating division, computed on magnitudes so that the rounding
/// direction is explicit.
pub fn div_trunc_i128(a: i128, b: i128) -> (r: i128)
    requires
        b > 0,
        a > i128::MIN,
    ensures
        r == div_trunc(a as int, b as int),
        mag(r as int) <= mag(a as int),
{
    proof {
        lemma_div_trunc_bound(a as int, b as int);
        lemma_div_trunc_mag(a as int, b as int);
    }
    if a >= 0 {
        let q: u128 = (a as u128) / (b as u128);
        q as i128
    } else {
        let m: u128 = ((-a) as u128) / (b as u128);
        -(m as i128)
    }
}

/// A fixed-point product of bounded scalars is bounded by the scaled-down
/// product of the bounds.
pub proof fn lemma_mul_fx_bound(a: int, b: int, ma: int, mb: int)
    requires
        mag(a) <= ma,
        mag(b) <= mb,
    ensures
        mag(mul_fx(a, b)) <= ma * mb / (SCALE as int),
        mag(a) * mag(b) <= ma * mb,
{
    lemma_mul_mag(a, b, ma, mb);
    lemma_div_trunc_mag(a * b, SCALE as int);
    vstd::arithmetic::div_mod::lemma_div_is_ordered(mag(a * b), ma * mb, SCALE as int);
}

/// Fixed-point product of two scalars held in wide registers.
pub fn mul_fx_i128(a: i128, b: i128) -> (r: i128)
    requires
        mag(a as int) * mag(b as int) <= i128::MAX,
    ensures
        r == mul_fx(a as int, b as int),
        mag(r as int) <= mag(a as int) * mag(b as int) / (SCALE as int),
{
    proof {
        lemma_mul_mag(a as int, b as int, mag(a as int), mag(b as int));
    }
    let p: i128 = a * b;
    let r = div_trunc_i128(p, SCALE as i128);
    proof {
        lemma_div_trunc_mag(p as int, SCALE as int);
        vstd::arithmetic::div_mod::lemma_div_is_ordered(
            mag(p as int),
            mag(a as int) * mag(b as int),
            SCALE as int,
        );
    }
    r
}

/// Whether a wide scalar is small enough to store.
pub fn fits_limit_i128(v: i128) -> (b: bool)
    ensures
        b == (mag(v as int) <= LIMIT),
{
    v <= LIMIT as i128 && v >= -(LIMIT as i128)
}

/// Floor of the square root, by bisection on the bracketing invariant.
pub fn isqrt_u128(n: u128) -> (r: u128)
    ensures
        r as nat == sqrt_floor(n as nat),
        is_sqrt_floor(n as int, r as int),
{
    let mut lo: u128 = 0;
    let mut hi: u128 = 0x1_0000_0000_0000_0000;
    proof {
        assert((hi as int) * (hi as int) > n as int) by (nonlinear_arith)
            requires
                hi == 0x1_0000_0000_0000_0000u128,
                n <= u128::MAX,
        ;
    }
    while lo + 1 < hi
        invariant
            0 <= lo < hi,
            lo * lo <= n,
            (n as int) < (hi as int) * (hi as int),
            hi <= 0x1_0000_0000_0000_0000,
        decreases hi - lo,
    {
        let mid: u128 = lo + (hi - lo) / 2;
        assert(lo < mid < hi);
        proof {
            assert((mid as int) * (mid as int) <= u128::MAX) by (nonlinear_arith)
                requires
                    mid < 0x1_0000_0000_0000_0000u128,
            ;
        }
        if mid * mid <= n {
            lo = mid;
        } else {
            hi = mid;
        }
    }
    proof {
        lemma_sqrt_floor_unique(n as int, lo as int);
    }
    lo
}

} // verus!
