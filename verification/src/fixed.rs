//! Fixed-point scalar arithmetic.
//!
//! A stored `i64` value `v` stands for the real number `v / SCALE`.
//! All operations truncate toward zero, exactly as the spec functions
//! `fmul_s`, `fdiv_s` and `sqrt_fx_s` state.

use vstd::prelude::*;

verus! {

/// Scale factor of the fixed-point scalars.
pub const SCALE: i64 = 65536;

/// The scalar standing for the real number one.
pub const ONE: i64 = 65536;

/// The scalar standing for one half.
pub const HALF: i64 = 32768;

/// Absolute value of a mathematical integer.
pub open spec fn abs_i(n: int) -> int {
    if n < 0 {
        -n
    } else {
        n
    }
}

/// Quotient truncated toward zero, as machine integer division computes it.
/// The quotient at a zero divisor is defined as zero; every executable
/// division in this crate excludes that case.
pub open spec fn qtrunc(n: int, d: int) -> int {
    if d == 0 {
        0
    } else if (n < 0) == (d < 0) {
        abs_i(n) / abs_i(d)
    } else {
        -(abs_i(n) / abs_i(d))
    }
}

/// Product of two fixed-point scalars.
pub open spec fn fmul_s(a: int, b: int) -> int {
    qtrunc(a * b, SCALE as int)
}

/// Quotient of two fixed-point scalars.
pub open spec fn fdiv_s(a: int, b: int) -> int {
    qtrunc(a * (SCALE as int), b)
}

/// Whether a mathematical integer is representable as an `i64` scalar.
pub open spec fn fits_i64(n: int) -> bool {
    i64::MIN <= n <= i64::MAX
}

/// Floor of the square root of a natural number.
pub open spec fn isqrt_s(x: nat) -> nat
    decreases x,
{
    if x == 0 {
        0
    } else {
        let r = isqrt_s((x - 1) as nat);
        if (r + 1) * (r + 1) <= x {
            r + 1
        } else {
            r
        }
    }
}

/// Square root of a nonnegative fixed-point scalar:
/// `sqrt(a / SCALE) == isqrt(a * SCALE) / SCALE` up to truncation.
pub open spec fn sqrt_fx_s(a: int) -> int
    recommends
        a >= 0,
{
    isqrt_s((a * (SCALE as int)) as nat) as int
}

pub proof fn lemma_isqrt_bounds(x: nat)
    ensures
        isqrt_s(x) * isqrt_s(x) <= x,
        x < (isqrt_s(x) + 1) * (isqrt_s(x) + 1),
    decreases x,
{
    if x == 0 {
        assert(isqrt_s(0) == 0);
        assert(isqrt_s(x) * isqrt_s(x) <= x);
        assert(x < (isqrt_s(x) + 1) * (isqrt_s(x) + 1)) by (nonlinear_arith)
            requires
                x == 0,
                isqrt_s(x) == 0,
        ;
    } else {
        lemma_isqrt_bounds((x - 1) as nat);
        let r = isqrt_s((x - 1) as nat);
        assert(r * r <= x - 1);
        assert(x - 1 < (r + 1) * (r + 1));
        if (r + 1) * (r + 1) <= x {
            assert(isqrt_s(x) == r + 1);
            assert(x < (r + 1 + 1) * (r + 1 + 1)) by (nonlinear_arith)
                requires
                    x - 1 < (r + 1) * (r + 1),
                    r >= 0,
            ;
            assert(isqrt_s(x) * isqrt_s(x) <= x);
            assert(x < (isqrt_s(x) + 1) * (isqrt_s(x) + 1));
        } else {
            assert(isqrt_s(x) == r);
            assert(isqrt_s(x) * isqrt_s(x) <= x);
            assert(x < (isqrt_s(x) + 1) * (isqrt_s(x) + 1));
        }
    }
}

pub proof fn lemma_isqrt_unique(x: nat, r: nat)
    requires
        r * r <= x,
        x < (r + 1) * (r + 1),
    ensures
        r == isqrt_s(x),
{
    lemma_isqrt_bounds(x);
    let s = isqrt_s(x);
    assert(r == s) by (nonlinear_arith)
        requires
            r * r <= x,
            x < (r + 1) * (r + 1),
            s * s <= x,
            x < (s + 1) * (s + 1),
            r >= 0,
            s >= 0,
    ;
}

/// A truncated quotient is no larger in magnitude than its dividend,
/// whenever the divisor is a nonzero integer.
pub proof fn lemma_qtrunc_abs_le(n: int, d: int)
    requires
        d != 0,
    ensures
        abs_i(qtrunc(n, d)) <= abs_i(n),
{
    assert(abs_i(n) / abs_i(d) <= abs_i(n)) by (nonlinear_arith)
        requires
            abs_i(d) >= 1,
            abs_i(n) >= 0,
    ;
}

/// A fixed-point product is bounded by the product of the factors' bounds.
pub proof fn lemma_fmul_abs_within(a: int, b: int, ba: int, bb: int)
    requires
        abs_i(a) <= ba,
        abs_i(b) <= bb,
    ensures
        abs_i(fmul_s(a, b)) <= ba * bb / (SCALE as int),
{
    assert(abs_i(a * b) <= ba * bb) by (nonlinear_arith)
        requires
            abs_i(a) <= ba,
            abs_i(b) <= bb,
    ;
    assert(abs_i(qtrunc(a * b, SCALE as int)) == abs_i(a * b) / (SCALE as int));
    assert(abs_i(a * b) / (SCALE as int) <= ba * bb / (SCALE as int)) by (nonlinear_arith)
        requires
            abs_i(a * b) <= ba * bb,
    ;
}

/// Multiplying a fixed-point scalar by `ONE` is exact.
pub proof fn lemma_fmul_one(a: int)
    ensures
        fmul_s(a, ONE as int) == a,
{
    assert(abs_i(a * 65536) == abs_i(a) * 65536) by (nonlinear_arith);
    assert(abs_i(a) * 65536 / 65536 == abs_i(a)) by (nonlinear_arith);
}

/// Fixed-point multiplication is commutative, exactly.
pub proof fn lemma_fmul_comm(a: int, b: int)
    ensures
        fmul_s(a, b) == fmul_s(b, a),
{
    assert(a * b == b * a) by (nonlinear_arith);
}

/// The square of the scalar minus one is exactly one.
pub proof fn lemma_fmul_neg_one()
    ensures
        fmul_s(-(ONE as int), -(ONE as int)) == ONE as int,
{
    assert((-(ONE as int)) * (-(ONE as int)) == 65536 * 65536) by (nonlinear_arith);
    assert(65536 * 65536 == 0x1_0000_0000) by (nonlinear_arith);
    assert(0x1_0000_0000int / 65536 == 65536);
}

/// The fixed-point square of any scalar is nonnegative.
pub proof fn lemma_fmul_self_nonneg(a: int)
    ensures
        fmul_s(a, a) >= 0,
        fmul_s(a, a) == abs_i(a) * abs_i(a) / (SCALE as int),
{
    assert(a * a >= 0 && abs_i(a * a) == abs_i(a) * abs_i(a)) by (nonlinear_arith);
}

/// The truncated quotient, multiplied back, differs from the dividend by
/// less than the divisor.
pub proof fn lemma_qtrunc_rem_bound(a: int, b: int)
    requires
        b != 0,
    ensures
        abs_i(a - qtrunc(a, b) * b) < abs_i(b),
        abs_i(qtrunc(a, b) * b) <= abs_i(a),
{
    let q = abs_i(a) / abs_i(b);
    assert(abs_i(a) == q * abs_i(b) + abs_i(a) % abs_i(b)) by (nonlinear_arith)
        requires
            abs_i(b) > 0,
            q == abs_i(a) / abs_i(b),
    ;
    assert(0 <= abs_i(a) % abs_i(b) < abs_i(b)) by (nonlinear_arith)
        requires
            abs_i(b) > 0,
    ;
    assert(abs_i(qtrunc(a, b) * b) == q * abs_i(b)) by (nonlinear_arith)
        requires
            b != 0,
            q == abs_i(a) / abs_i(b),
            q >= 0,
            qtrunc(a, b) == if (a < 0) == (b < 0) {
                q
            } else {
                -q
            },
    ;
    assert(abs_i(a - qtrunc(a, b) * b) == abs_i(a) - q * abs_i(b)) by (nonlinear_arith)
        requires
            b != 0,
            q == abs_i(a) / abs_i(b),
            q >= 0,
            abs_i(a) - q * abs_i(b) < abs_i(b),
            abs_i(a) - q * abs_i(b) >= 0,
            qtrunc(a, b) == if (a < 0) == (b < 0) {
                q
            } else {
                -q
            },
    ;
}

/// Fixed-point multiplication is associative up to truncation: the two
/// groupings of a triple product differ by at most two units plus the
/// truncation error carried through the outer factors. (They can really
/// differ: `(a * b) * c` and `a * (b * c)` at `a == b == ONE + 1`,
/// `c == HALF` give `HALF + 1` and `HALF`.)
pub proof fn lemma_fmul_assoc_tolerance(a: int, b: int, c: int)
    ensures
        abs_i(fmul_s(fmul_s(a, b), c) - fmul_s(a, fmul_s(b, c))) <= 2 + (abs_i(a) + abs_i(c)) / (
        SCALE as int),
{
    let s = SCALE as int;
    let p = fmul_s(a, b);
    let lhs = fmul_s(p, c);
    let q = fmul_s(b, c);
    let rhs = fmul_s(a, q);
    lemma_qtrunc_rem_bound(a * b, s);
    lemma_qtrunc_rem_bound(p * c, s);
    lemma_qtrunc_rem_bound(b * c, s);
    lemma_qtrunc_rem_bound(a * q, s);
    let e1 = a * b - p * s;
    let e2 = p * c - lhs * s;
    let e3 = b * c - q * s;
    let e4 = a * q - rhs * s;
    assert(a * b * c == lhs * s * s + e2 * s + e1 * c) by (nonlinear_arith)
        requires
            e1 == a * b - p * s,
            e2 == p * c - lhs * s,
    ;
    assert(a * b * c == rhs * s * s + e4 * s + e3 * a) by (nonlinear_arith)
        requires
            e3 == b * c - q * s,
            e4 == a * q - rhs * s,
    ;
    let k = abs_i(a) + abs_i(c);
    let f = k / s;
    assert(k < (f + 1) * s) by (nonlinear_arith)
        requires
            f == k / s,
            s == 65536,
            k >= 0,
    ;
    assert(abs_i(lhs - rhs) <= 2 + f) by (nonlinear_arith)
        requires
            lhs * s * s + e2 * s + e1 * c == rhs * s * s + e4 * s + e3 * a,
            abs_i(e1) < s,
            abs_i(e2) < s,
            abs_i(e3) < s,
            abs_i(e4) < s,
            k == abs_i(a) + abs_i(c),
            k < (f + 1) * s,
            f >= 0,
            s == 65536,
    ;
}

/// Scaling a nonnegative scalar by a tint in `[0, ONE]` keeps it in
/// `[0, c]`.
pub proof fn lemma_fmul_tint(c: int, t: int)
    requires
        0 <= c,
        0 <= t <= ONE,
    ensures
        0 <= fmul_s(c, t) <= c,
{
    assert(0 <= c * t && c * t <= c * 65536) by (nonlinear_arith)
        requires
            0 <= c,
            0 <= t <= 65536,
    ;
    assert((c * t) / 65536 <= (c * 65536) / 65536 && (c * 65536) / 65536 == c && 0 <= (c * t)
        / 65536) by (nonlinear_arith)
        requires
            0 <= c * t,
            c * t <= c * 65536,
    ;
}

/// The average of a total of `n` values, each within `bound`, is within
/// `bound`.
pub proof fn lemma_avg_bound(total: int, n: int, bound: int)
    requires
        1 <= n,
        0 <= bound,
        0 <= total <= n * bound,
    ensures
        0 <= fdiv_s(total, n * (ONE as int)) <= bound,
{
    let d = n * 65536;
    assert(d >= 65536) by (nonlinear_arith)
        requires
            n >= 1,
            d == n * 65536,
    ;
    assert(abs_i(total * 65536) == total * 65536 && 0 <= total * 65536) by (nonlinear_arith)
        requires
            0 <= total,
    ;
    assert((total * 65536) / d <= bound) by (nonlinear_arith)
        requires
            total <= n * bound,
            d == n * 65536,
            n >= 1,
            bound >= 0,
    ;
    assert(0 <= (total * 65536) / d) by (nonlinear_arith)
        requires
            0 <= total * 65536,
            d > 0,
    ;
}

/// Absolute value of an `i64` scalar, as a `u64`.
pub fn abs_u64(a: i64) -> (r: u64)
    ensures
        r as int == abs_i(a as int),
{
    if a >= 0 {
        a as u64
    } else {
        (-(a as i128)) as u64
    }
}

/// Exact product of two `i64` scalars, widened so it cannot overflow.
pub fn mul_wide(a: i64, b: i64) -> (r: i128)
    ensures
        r as int == (a as int) * (b as int),
        -0x4000_0000_0000_0000_0000_0000_0000_0000 <= r as int
            <= 0x4000_0000_0000_0000_0000_0000_0000_0000,
{
    proof {
        assert((a as int) * (b as int) <= 0x8000_0000_0000_0000 * 0x8000_0000_0000_0000
            && (a as int) * (b as int) >= -(0x8000_0000_0000_0000 * 0x8000_0000_0000_0000))
            by (nonlinear_arith)
            requires
                -0x8000_0000_0000_0000 <= a as int <= 0x7FFF_FFFF_FFFF_FFFF,
                -0x8000_0000_0000_0000 <= b as int <= 0x7FFF_FFFF_FFFF_FFFF,
        ;
    }
    (a as i128) * (b as i128)
}

/// Quotient of two `i128` values, truncated toward zero.
pub fn tdiv128(n: i128, d: i128) -> (r: i128)
    requires
        d != 0,
        n != i128::MIN,
        d != i128::MIN,
    ensures
        r as int == qtrunc(n as int, d as int),
{
    let na: u128 = if n >= 0 {
        n as u128
    } else {
        (-n) as u128
    };
    let da: u128 = if d >= 0 {
        d as u128
    } else {
        (-d) as u128
    };
    let q: u128 = na / da;
    proof {
        assert(na as int == abs_i(n as int));
        assert(da as int == abs_i(d as int));
        assert(q as int == abs_i(n as int) / abs_i(d as int));
        assert(q as int * da as int <= na as int) by (nonlinear_arith)
            requires
                da > 0,
                q as int == na as int / da as int,
        ;
    }
    if (n < 0) == (d < 0) {
        q as i128
    } else {
        -(q as i128)
    }
}

/// Fixed-point product, widened: never overflows and needs no precondition.
pub fn fmul_wide(a: i64, b: i64) -> (r: i128)
    ensures
        r as int == fmul_s(a as int, b as int),
        abs_i(r as int) <= abs_i((a as int) * (b as int)) / (SCALE as int),
        abs_i(r as int) <= 0x4000_0000_0000_0000_0000_0000_0000,
{
    let p: i128 = mul_wide(a, b);
    let r = tdiv128(p, SCALE as i128);
    proof {
        assert(abs_i(qtrunc(p as int, SCALE as int)) == abs_i(p as int) / (SCALE as int));
    }
    r
}

/// Fixed-point product of two scalars whose result stays representable.
pub fn fmul(a: i64, b: i64) -> (r: i64)
    requires
        fits_i64(fmul_s(a as int, b as int)),
    ensures
        r as int == fmul_s(a as int, b as int),
{
    let w: i128 = fmul_wide(a, b);
    w as i64
}

/// Fixed-point quotient of two scalars whose result stays representable.
pub fn fdiv(a: i64, b: i64) -> (r: i64)
    requires
        b != 0,
        fits_i64(fdiv_s(a as int, b as int)),
    ensures
        r as int == fdiv_s(a as int, b as int),
{
    let p: i128 = mul_wide(a, SCALE);
    let w: i128 = tdiv128(p, b as i128);
    w as i64
}

/// Floor of the square root of a `u128`.
pub fn isqrt(x: u128) -> (r: u64)
    ensures
        r as nat == isqrt_s(x as nat),
{
    let mut lo: u128 = 0;
    let mut hi: u128 = 0x1_0000_0000_0000_0000;
    proof {
        assert((0x1_0000_0000_0000_0000 as int) * (0x1_0000_0000_0000_0000 as int)
            > u128::MAX as int);
    }
    while lo + 1 < hi
        invariant
            lo < hi <= 0x1_0000_0000_0000_0000,
            (lo as int) * (lo as int) <= x as int,
            (x as int) < (hi as int) * (hi as int),
        decreases hi - lo,
    {
        let mid: u128 = lo + (hi - lo) / 2;
        proof {
            assert(lo < mid < hi);
            assert((mid as int) * (mid as int) < 0x1_0000_0000_0000_0000_0000_0000_0000_0000)
                by (nonlinear_arith)
                requires
                    mid < 0x1_0000_0000_0000_0000u128,
            ;
        }
        if mid * mid <= x {
            lo = mid;
        } else {
            hi = mid;
        }
    }
    proof {
        lemma_isqrt_unique(x as nat, lo as nat);
    }
    lo as u64
}

/// Square root of a nonnegative fixed-point scalar.
pub fn sqrt_fx(a: i64) -> (r: i64)
    requires
        a >= 0,
    ensures
        r as int == sqrt_fx_s(a as int),
        r >= 0,
{
    let xi: i128 = mul_wide(a, SCALE);
    let x: u128 = xi as u128;
    proof {
        assert(x as int == (a as int) * 65536);
    }
    let r: u64 = isqrt(x);
    proof {
        lemma_isqrt_bounds(x as nat);
        assert(isqrt_s(x as nat) < 0x1_0000_0000_0000) by (nonlinear_arith)
            requires
                isqrt_s(x as nat) * isqrt_s(x as nat) <= x as nat,
                x as int <= 0x7FFF_FFFF_FFFF_FFFF * 0x1_0000,
        ;
    }
    r as i64
}

} // verus!
