//! 16.16 fixed-point arithmetic shared by the animation engine.
//!
//! All perceptual quantities (energies, brightness values, LED positions)
//! are carried as unsigned or signed integers scaled by `FP_ONE`.

use vstd::prelude::*;

verus! {

/// The fixed-point representation of 1.0.
pub const FP_ONE: u64 = 65536;

/// Fixed-point product: `a * b / FP_ONE`, rounded toward zero.
pub open spec fn fp_mul_spec(a: int, b: int) -> int {
    (a * b) / (FP_ONE as int)
}

/// Fixed-point quotient: `a * FP_ONE / b`, rounded toward zero.
pub open spec fn fp_div_spec(a: int, b: int) -> int {
    (a * (FP_ONE as int)) / b
}

pub fn fp_mul(a: u64, b: u64) -> (r: u64)
    requires
        (a as int) * (b as int) <= u64::MAX as int,
    ensures
        r == fp_mul_spec(a as int, b as int),
{
    (a * b) / FP_ONE
}

pub fn fp_div(a: u64, b: u64) -> (r: u64)
    requires
        b >= 1,
        (a as int) * (FP_ONE as int) <= u64::MAX as int,
    ensures
        r == fp_div_spec(a as int, b as int),
{
    (a * FP_ONE) / b
}

/// A product of two values at most `FP_ONE` stays at most `FP_ONE` after rescaling.
pub proof fn lemma_fp_mul_unit(a: int, b: int) by (nonlinear_arith)
    requires
        0 <= a <= FP_ONE as int,
        0 <= b <= FP_ONE as int,
    ensures
        0 <= fp_mul_spec(a, b) <= FP_ONE as int,
        fp_mul_spec(a, b) <= a,
        (a * b) <= u64::MAX as int,
{
}

/// Monotonicity of products of non-negative values.
pub proof fn lemma_mul_le(a: int, b: int, am: int, bm: int) by (nonlinear_arith)
    requires
        0 <= a <= am,
        0 <= b <= bm,
    ensures
        a * b <= am * bm,
{
}

/// The quotient of a value by a larger one is at most `FP_ONE`.
pub proof fn lemma_fp_div_unit(a: int, b: int) by (nonlinear_arith)
    requires
        0 <= a <= b,
        1 <= b,
    ensures
        0 <= fp_div_spec(a, b) <= FP_ONE as int,
{
}

/// Rescaling by a unit-range factor never exceeds the other operand.
pub proof fn lemma_fp_mul_le_rhs(a: int, b: int) by (nonlinear_arith)
    requires
        0 <= a <= FP_ONE as int,
        0 <= b,
    ensures
        0 <= fp_mul_spec(a, b) <= b,
{
}

/// `r` is the integer square root of `x`.
pub open spec fn is_isqrt(x: int, r: int) -> bool {
    r >= 0 && r * r <= x && (r + 1) * (r + 1) > x
}

/// The integer square root, defined by counting up.
pub open spec fn isqrt_spec(x: int) -> int
    decreases x,
{
    if x <= 0 {
        0
    } else {
        let p = isqrt_spec(x - 1);
        if (p + 1) * (p + 1) <= x {
            p + 1
        } else {
            p
        }
    }
}

pub proof fn lemma_isqrt_correct(x: int)
    requires
        x >= 0,
    ensures
        is_isqrt(x, isqrt_spec(x)),
    decreases x,
{
    if x > 0 {
        lemma_isqrt_correct(x - 1);
        let p = isqrt_spec(x - 1);
        if (p + 1) * (p + 1) <= x {
            assert((p + 2) * (p + 2) > x) by (nonlinear_arith)
                requires p >= 0 && x - 1 < (p + 1) * (p + 1);
        }
    }
}

pub proof fn lemma_isqrt_unique(x: int, a: int, b: int) by (nonlinear_arith)
    requires
        is_isqrt(x, a),
        is_isqrt(x, b),
    ensures
        a == b,
{
}

/// Square root of a unit-range fixed-point value.
pub open spec fn fp_sqrt_spec(v: int) -> int {
    isqrt_spec(v * (FP_ONE as int))
}

/// Fourth root of a unit-range fixed-point value.
pub open spec fn fp_qroot_spec(v: int) -> int {
    isqrt_spec(fp_sqrt_spec(v) * (FP_ONE as int))
}

/// `base` raised to the `n`-th power in fixed point, rounding at each step.
pub open spec fn fp_pow_spec(base: int, n: nat) -> int
    decreases n,
{
    if n == 0 {
        FP_ONE as int
    } else {
        fp_mul_spec(fp_pow_spec(base, (n - 1) as nat), base)
    }
}

/// A unit-range value raised to the exponent `q / 4`.
pub open spec fn fp_powq_spec(v: int, q: nat) -> int {
    fp_pow_spec(fp_qroot_spec(v), q)
}

/// Binary-search integer square root.
pub fn isqrt(x: u64) -> (r: u64)
    ensures
        r == isqrt_spec(x as int),
        is_isqrt(x as int, r as int),
        r <= 0xFFFF_FFFF,
{
    let mut lo: u64 = 0;
    let mut hi: u64 = 0x1_0000_0000;
    while lo + 1 < hi
        invariant
            lo < hi <= 0x1_0000_0000,
            (lo as int) * (lo as int) <= x as int,
            (hi as int) * (hi as int) > x as int,
        decreases hi - lo,
    {
        let mid = lo + (hi - lo) / 2;
        proof {
            lemma_mul_le(mid as int, mid as int, 0xFFFF_FFFF, 0xFFFF_FFFF);
        }
        if mid * mid <= x {
            lo = mid;
        } else {
            hi = mid;
        }
    }
    proof {
        lemma_isqrt_correct(x as int);
        lemma_isqrt_unique(x as int, lo as int, isqrt_spec(x as int));
    }
    lo
}

/// The square root of a value at most `x` is at most the root of `x`.
pub proof fn lemma_isqrt_le(r: int, x: int, m: int) by (nonlinear_arith)
    requires
        is_isqrt(x, r),
        0 <= x <= m * m,
        0 <= m,
    ensures
        r <= m,
{
}

/// `v` raised to the exponent `q / 4`, for a unit-range fixed-point `v`.
pub fn fp_pow_quarters(v: u64, q: u8) -> (r: u64)
    requires
        v <= FP_ONE,
        q <= 16,
    ensures
        r == fp_powq_spec(v as int, q as nat),
        r <= FP_ONE,
{
    proof {
        lemma_mul_le(v as int, FP_ONE as int, FP_ONE as int, FP_ONE as int);
    }
    let s1 = isqrt(v * FP_ONE);
    proof {
        lemma_isqrt_le(s1 as int, (v * FP_ONE) as int, FP_ONE as int);
        lemma_mul_le(s1 as int, FP_ONE as int, FP_ONE as int, FP_ONE as int);
    }
    let s2 = isqrt(s1 * FP_ONE);
    proof {
        lemma_isqrt_le(s2 as int, (s1 * FP_ONE) as int, FP_ONE as int);
    }
    let mut r: u64 = FP_ONE;
    let mut i: u8 = 0;
    while i < q
        invariant
            i <= q,
            s2 <= FP_ONE,
            r <= FP_ONE,
            r == fp_pow_spec(s2 as int, i as nat),
        decreases q - i,
    {
        proof {
            lemma_fp_mul_unit(r as int, s2 as int);
        }
        r = fp_mul(r, s2);
        i += 1;
    }
    r
}

} // verus!
